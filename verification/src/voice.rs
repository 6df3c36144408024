//! Voice style store: a table of named style embeddings, loaded once from
//! persisted data, and the resolution of single or blended style vectors.
//!
//! Style components are fixed-point integers (the loading shell converts the
//! persisted floating-point data at a fixed scale). A resolved style vector is
//! handed out in tenths of a table unit: a blend component `name.d` weighs the
//! voice by the single digit `d` read as `d/10`, so the resolved component for
//! dimension `j` is the exact integer `sum over components of d * voice[j]`,
//! and a single voice resolves to `10 * voice[j]`.

use vstd::prelude::*;

use crate::chars::{chars_of, copy_chars, copy_row, string_eq_chars};

verus! {

/// Number of components of one style vector.
pub const STYLE_DIM: usize = 256;

/// Number of buckets stored per voice; only bucket 0 is read by resolution.
pub const STYLE_BUCKETS: usize = 511;

/// Bound on the magnitude of one stored style component.
pub const STYLE_VALUE_BOUND: i64 = 0x8000_0000;

/// A resolved vector is scaled by this factor: its components are in tenths
/// of a table unit, so a weight digit `d` stands for the fraction `d/10`.
pub const DECI_SCALE: i128 = 10;

/// Failure to build the style table from persisted data.
#[derive(Debug, Clone, Copy, PartialEq, Eq, Structural)]
pub enum LoadError {
    /// An entry's shape deviates from STYLE_BUCKETS x 1 x STYLE_DIM.
    BadShape,
    /// A component's magnitude exceeds STYLE_VALUE_BOUND.
    ValueOutOfRange,
    /// Two entries carry the same voice name.
    DuplicateVoice,
}

/// Failure to resolve a style name against the table.
#[derive(Debug, Clone, Copy, PartialEq, Eq, Structural)]
pub enum StyleResolutionError {
    /// A single-voice request named a voice absent from the table.
    UnknownVoice,
    /// The request was empty, or no component of a blend parsed.
    NoValidComponents,
}

/// One named voice: STYLE_BUCKETS buckets of STYLE_DIM components each.
#[derive(Debug, Clone, PartialEq)]
pub struct VoiceStyle {
    pub name: String,
    pub buckets: Vec<Vec<i64>>,
}

impl VoiceStyle {
    /// Shape and range of one voice's data.
    pub open spec fn wf(&self) -> bool {
        &&& self.buckets@.len() == STYLE_BUCKETS
        &&& forall|b: int| 0 <= b < self.buckets@.len() ==> (#[trigger] self.buckets@[b])@.len()
            == STYLE_DIM
        &&& forall|b: int, j: int|
            0 <= b < self.buckets@.len() && 0 <= j < self.buckets@[b]@.len()
                ==> -STYLE_VALUE_BOUND <= #[trigger] self.buckets@[b]@[j] <= STYLE_VALUE_BOUND
    }

    /// The one bucket current consumers read.
    pub open spec fn bucket0(&self) -> Seq<i64> {
        self.buckets@[0]@
    }
}

/// Index of the first entry with the given name, or -1 when absent.
pub open spec fn spec_find(entries: Seq<VoiceStyle>, name: Seq<char>) -> int
    decreases entries.len(),
{
    if entries.len() == 0 {
        -1
    } else if entries[0].name@ == name {
        0
    } else if spec_find(entries.drop_first(), name) == -1 {
        -1
    } else {
        1 + spec_find(entries.drop_first(), name)
    }
}

/// Whether the table holds a voice of the given name.
pub open spec fn has_voice(entries: Seq<VoiceStyle>, name: Seq<char>) -> bool {
    spec_find(entries, name) != -1
}

/// Bucket 0 of the named voice.
pub open spec fn voice_bucket0(entries: Seq<VoiceStyle>, name: Seq<char>) -> Seq<i64> {
    entries[spec_find(entries, name)].bucket0()
}

/// A found index lies in range and names the right entry.
pub proof fn lemma_spec_find_valid(entries: Seq<VoiceStyle>, name: Seq<char>)
    ensures
        spec_find(entries, name) == -1 || (0 <= spec_find(entries, name) < entries.len()
            && entries[spec_find(entries, name)].name@ == name),
    decreases entries.len(),
{
    if entries.len() > 0 && entries[0].name@ != name {
        lemma_spec_find_valid(entries.drop_first(), name);
    }
}

/// The first match determines the found index: if no entry below `i` matches
/// and entry `i` matches, the found index is `i`; if no entry matches at all,
/// nothing is found.
pub proof fn lemma_spec_find_first(entries: Seq<VoiceStyle>, name: Seq<char>, i: int)
    requires
        0 <= i <= entries.len(),
        forall|k: int| 0 <= k < i ==> (#[trigger] entries[k]).name@ != name,
        i < entries.len() ==> entries[i].name@ == name,
    ensures
        i < entries.len() ==> spec_find(entries, name) == i,
        i == entries.len() ==> spec_find(entries, name) == -1,
    decreases entries.len(),
{
    if entries.len() > 0 && i > 0 {
        assert(entries[0].name@ != name);
        lemma_spec_find_first(entries.drop_first(), name, i - 1);
    }
}

/// Whether a character is a decimal digit.
pub open spec fn is_digit_char(c: char) -> bool {
    '0' <= c && c <= '9'
}

/// Value of a decimal digit.
pub open spec fn digit_of(c: char) -> int {
    c as int - '0' as int
}

/// Pieces of a character sequence split on `+`; always at least one piece,
/// and an empty sequence gives one empty piece.
pub open spec fn spec_split(s: Seq<char>) -> Seq<Seq<char>>
    decreases s.len(),
{
    if s.len() == 0 {
        seq![Seq::<char>::empty()]
    } else if s[0] == '+' {
        seq![Seq::<char>::empty()] + spec_split(s.drop_first())
    } else {
        let rest = spec_split(s.drop_first());
        seq![seq![s[0]] + rest[0]] + rest.drop_first()
    }
}

/// There is always at least one piece.
pub proof fn lemma_spec_split_len(s: Seq<char>)
    ensures
        spec_split(s).len() >= 1,
    decreases s.len(),
{
    if s.len() > 0 {
        lemma_spec_split_len(s.drop_first());
    }
}

/// A blend component `name.d`: the name before the first dot, and the single
/// digit after it. Anything else fails to parse.
pub open spec fn spec_parse_component(p: Seq<char>) -> Option<(Seq<char>, int)>
    decreases p.len(),
{
    if p.len() == 0 {
        None
    } else if p[0] == '.' {
        if p.len() == 2 && is_digit_char(p[1]) {
            Some((Seq::<char>::empty(), digit_of(p[1])))
        } else {
            None
        }
    } else {
        match spec_parse_component(p.drop_first()) {
            Some(c) => Some((seq![p[0]] + c.0, c.1)),
            None => None,
        }
    }
}

/// What a piece parses to, characterized by the position of its first dot:
/// with no dot it fails; with the first dot at `d` it parses exactly when one
/// digit follows and nothing else, and the name is everything before the dot.
pub proof fn lemma_parse_at_dot(p: Seq<char>, d: int)
    requires
        0 <= d <= p.len(),
        forall|k: int| 0 <= k < d ==> p[k] != '.',
        d < p.len() ==> p[d] == '.',
    ensures
        d == p.len() ==> spec_parse_component(p) is None,
        d < p.len() ==> spec_parse_component(p) == (if p.len() == d + 2 && is_digit_char(p[d + 1]) {
            Some((p.take(d), digit_of(p[d + 1])))
        } else {
            None::<(Seq<char>, int)>
        }),
    decreases p.len(),
{
    if p.len() == 0 {
    } else if d == 0 {
        if p.len() == 2 && is_digit_char(p[1]) {
            assert(p.take(0) =~= Seq::<char>::empty());
        }
    } else {
        lemma_parse_at_dot(p.drop_first(), d - 1);
        if d < p.len() && p.len() == d + 2 && is_digit_char(p[d + 1]) {
            assert(seq![p[0]] + p.drop_first().take(d - 1) =~= p.take(d));
        }
    }
}

/// The valid components among a sequence of pieces, in order.
pub open spec fn spec_components_of(pieces: Seq<Seq<char>>) -> Seq<(Seq<char>, int)>
    decreases pieces.len(),
{
    if pieces.len() == 0 {
        Seq::empty()
    } else {
        let rest = spec_components_of(pieces.drop_last());
        match spec_parse_component(pieces.last()) {
            Some(c) => rest.push(c),
            None => rest,
        }
    }
}

/// The valid components of a blend request: split on `+`, parse each piece,
/// keep what parses.
pub open spec fn spec_components(s: Seq<char>) -> Seq<(Seq<char>, int)> {
    spec_components_of(spec_split(s))
}

/// The blended value at dimension `j`: each component weighs bucket 0 of its
/// voice by its digit; a component naming an absent voice contributes zero.
pub open spec fn spec_blend_at(
    entries: Seq<VoiceStyle>,
    comps: Seq<(Seq<char>, int)>,
    j: int,
) -> int
    decreases comps.len(),
{
    if comps.len() == 0 {
        0
    } else {
        spec_blend_at(entries, comps.drop_last(), j) + (if has_voice(entries, comps.last().0) {
            comps.last().1 * voice_bucket0(entries, comps.last().0)[j]
        } else {
            0
        })
    }
}

/// Whether a resolution request succeeds against the given entries: a
/// non-empty name without `+` must name a voice; a blend must have at least
/// one component that parses.
pub open spec fn spec_mix_ok(entries: Seq<VoiceStyle>, s: Seq<char>) -> bool {
    if s.len() == 0 {
        false
    } else if !s.contains('+') {
        has_voice(entries, s)
    } else {
        spec_components(s).len() != 0
    }
}

/// The resolved component at dimension `j`, in tenths of a table unit.
pub open spec fn spec_mix_row(entries: Seq<VoiceStyle>, s: Seq<char>, j: int) -> int {
    if !s.contains('+') {
        DECI_SCALE * voice_bucket0(entries, s)[j]
    } else {
        spec_blend_at(entries, spec_components(s), j)
    }
}

/// The error a failing resolution reports.
pub open spec fn spec_mix_err(s: Seq<char>) -> StyleResolutionError {
    if s.len() == 0 {
        StyleResolutionError::NoValidComponents
    } else if !s.contains('+') {
        StyleResolutionError::UnknownVoice
    } else {
        StyleResolutionError::NoValidComponents
    }
}

/// Splits a character sequence on `+`.
fn split_plus(cs: &Vec<char>) -> (r: Vec<Vec<char>>)
    ensures
        r.deep_view() == spec_split(cs@),
{
    let n = cs.len();
    let mut done: Vec<Vec<char>> = Vec::new();
    let mut cur: Vec<char> = Vec::new();
    let mut i: usize = 0;
    proof {
        assert(cs@.skip(0) =~= cs@);
    }
    while i < n
        invariant
            n == cs@.len(),
            i <= n,
            spec_split(cs@) == done.deep_view() + seq![cur@ + spec_split(cs@.skip(i as int))[0]]
                + spec_split(cs@.skip(i as int)).drop_first(),
        decreases n - i,
    {
        let ghost s_i = cs@.skip(i as int);
        let ghost s_next = cs@.skip(i as int + 1);
        proof {
            assert(s_i.len() > 0);
            assert(s_i[0] == cs@[i as int]);
            assert(s_i.drop_first() =~= s_next);
            lemma_spec_split_len(s_next);
        }
        let c = cs[i];
        if c == '+' {
            proof {
                assert(spec_split(s_i) == seq![Seq::<char>::empty()] + spec_split(s_next));
                assert(cur@ + spec_split(s_i)[0] =~= cur@);
                assert(spec_split(s_i).drop_first() =~= spec_split(s_next));
            }
            let ghost old_done = done.deep_view();
            let ghost old_cur = cur@;
            done.push(cur);
            cur = Vec::new();
            proof {
                assert(done.deep_view() =~~= old_done.push(old_cur));
                assert(spec_split(s_next) =~= seq![spec_split(s_next)[0]] + spec_split(
                    s_next,
                ).drop_first());
                assert(cur@ + spec_split(s_next)[0] =~= spec_split(s_next)[0]);
                assert(spec_split(cs@) =~= done.deep_view() + seq![cur@ + spec_split(s_next)[0]]
                    + spec_split(s_next).drop_first());
            }
        } else {
            proof {
                let rest = spec_split(s_next);
                assert(spec_split(s_i) == seq![seq![s_i[0]] + rest[0]] + rest.drop_first());
                assert(cur@ + spec_split(s_i)[0] =~= cur@.push(c) + rest[0]);
                assert(spec_split(s_i).drop_first() =~= rest.drop_first());
            }
            cur.push(c);
            proof {
                assert(spec_split(cs@) =~= done.deep_view() + seq![cur@ + spec_split(s_next)[0]]
                    + spec_split(s_next).drop_first());
            }
        }
        i = i + 1;
    }
    proof {
        assert(cs@.skip(n as int) =~= Seq::<char>::empty());
        assert(spec_split(cs@.skip(n as int)) == seq![Seq::<char>::empty()]);
        assert(cur@ + spec_split(cs@.skip(n as int))[0] =~= cur@);
        assert(spec_split(cs@.skip(n as int)).drop_first() =~= Seq::<Seq<char>>::empty());
    }
    let ghost old_done = done.deep_view();
    let ghost old_cur = cur@;
    done.push(cur);
    proof {
        assert(done.deep_view() =~~= old_done.push(old_cur));
        assert(done.deep_view() =~= spec_split(cs@));
    }
    done
}

/// Parses the pieces of a blend request, keeping the valid components: for
/// each piece of the form `name.d` with `d` a single decimal digit, the name's
/// characters and the digit's value.
fn parse_components(pieces: &Vec<Vec<char>>) -> (r: Vec<(Vec<char>, u8)>)
    ensures
        r@.len() == spec_components_of(pieces.deep_view()).len(),
        forall|k: int|
            0 <= k < r@.len() ==> (#[trigger] r@[k]).0@ == spec_components_of(pieces.deep_view())[k].0
                && r@[k].1 as int == spec_components_of(pieces.deep_view())[k].1,
        forall|k: int| 0 <= k < r@.len() ==> 0 <= (#[trigger] r@[k]).1 <= 9,
{
    let n = pieces.len();
    let mut out: Vec<(Vec<char>, u8)> = Vec::new();
    let mut i: usize = 0;
    while i < n
        invariant
            n == pieces@.len(),
            i <= n,
            out@.len() == spec_components_of(pieces.deep_view().take(i as int)).len(),
            forall|k: int|
                0 <= k < out@.len() ==> (#[trigger] out@[k]).0@ == spec_components_of(
                    pieces.deep_view().take(i as int),
                )[k].0 && out@[k].1 as int == spec_components_of(
                    pieces.deep_view().take(i as int),
                )[k].1,
            forall|k: int| 0 <= k < out@.len() ==> 0 <= (#[trigger] out@[k]).1 <= 9,
        decreases n - i,
    {
        let ghost pre = pieces.deep_view().take(i as int);
        let ghost post = pieces.deep_view().take(i as int + 1);
        proof {
            assert(pieces.deep_view()[i as int] =~= pieces@[i as int]@);
            assert(post.drop_last() =~= pre);
            assert(post.last() == pieces@[i as int]@);
        }
        let piece = &pieces[i];
        // find the first dot
        let m = piece.len();
        let mut d: usize = 0;
        while d < m && piece[d] != '.'
            invariant
                m == piece@.len(),
                d <= m,
                forall|k: int| 0 <= k < d ==> piece@[k] != '.',
            decreases m - d,
        {
            d = d + 1;
        }
        proof {
            lemma_parse_at_dot(piece@, d as int);
        }
        if d < m && m - d == 2 {
            let w = piece[d + 1];
            if '0' <= w && w <= '9' {
                let name = copy_chars(piece, 0, d);
                let digit: u8 = (w as u32 - '0' as u32) as u8;
                proof {
                    assert(piece@.take(d as int) =~= piece@.subrange(0, d as int));
                    assert(spec_parse_component(piece@) == Some(
                        (piece@.take(d as int), digit_of(piece@[d as int + 1])),
                    ));
                }
                out.push((name, digit));
            }
        }
        i = i + 1;
        proof {
            assert(pieces.deep_view().take(i as int) =~= post);
        }
    }
    proof {
        assert(pieces.deep_view().take(n as int) =~= pieces.deep_view());
    }
    out
}

/// The style table: voice name to style data, immutable after load.
#[derive(Debug, Clone, PartialEq)]
pub struct VoiceStyleTable {
    pub entries: Vec<VoiceStyle>,
}

impl VoiceStyleTable {
    /// Every entry is well-shaped and voice names are unique.
    pub open spec fn wf(&self) -> bool {
        &&& forall|i: int| 0 <= i < self.entries@.len() ==> (#[trigger] self.entries@[i]).wf()
        &&& forall|i: int, k: int|
            0 <= i < k < self.entries@.len() ==> (#[trigger] self.entries@[i]).name@ != (
            #[trigger] self.entries@[k]).name@
    }

    /// Index of the voice with the given name, when present.
    fn find_voice(&self, name: &Vec<char>) -> (r: Option<usize>)
        ensures
            match r {
                Some(k) => spec_find(self.entries@, name@) == k as int,
                None => spec_find(self.entries@, name@) == -1,
            },
    {
        let n = self.entries.len();
        let mut i: usize = 0;
        while i < n
            invariant
                n == self.entries@.len(),
                i <= n,
                forall|k: int| 0 <= k < i ==> (#[trigger] self.entries@[k]).name@ != name@,
            decreases n - i,
        {
            if string_eq_chars(self.entries[i].name.as_str(), name) {
                proof {
                    lemma_spec_find_first(self.entries@, name@, i as int);
                }
                return Some(i);
            }
            i = i + 1;
        }
        proof {
            lemma_spec_find_first(self.entries@, name@, n as int);
        }
        None
    }
}

} // verus!

verus! {

impl VoiceStyleTable {
    /// Resolves a style name to a single-row batch of one style vector, in
    /// tenths of a table unit.
    ///
    /// A non-empty name without `+` must name a voice of the table and
    /// resolves to ten times its bucket 0 (that is, to bucket 0 itself, read
    /// in tenths); an absent voice fails with `UnknownVoice`. A name with `+`
    /// is a blend: pieces of the form `name.d` weigh a voice by the digit `d`
    /// read as `d/10`; pieces that fail to parse are skipped, parsed pieces
    /// naming an absent voice contribute zero, and only a blend with no
    /// parsed piece at all fails, with `NoValidComponents`, as does an empty
    /// request.
    pub fn mix_styles(&self, style_name: &str) -> (r: Result<Vec<Vec<i128>>, StyleResolutionError>)
        requires
            self.wf(),
        ensures
            r is Ok <==> spec_mix_ok(self.entries@, style_name@),
            r matches Ok(rows) ==> rows@.len() == 1 && rows@[0]@.len() == STYLE_DIM && forall|j: int|
                0 <= j < STYLE_DIM ==> rows@[0]@[j] == spec_mix_row(self.entries@, style_name@, j),
            r matches Err(e) ==> e == spec_mix_err(style_name@),
    {
        let cs = chars_of(style_name);
        let n = cs.len();
        if n == 0 {
            return Err(StyleResolutionError::NoValidComponents);
        }
        // look for a separator
        let mut has_plus = false;
        let mut i: usize = 0;
        while i < n
            invariant
                n == cs@.len(),
                i <= n,
                has_plus == cs@.take(i as int).contains('+'),
            decreases n - i,
        {
            let ghost pre = cs@.take(i as int);
            if cs[i] == '+' {
                has_plus = true;
            }
            i = i + 1;
            proof {
                let cur = cs@.take(i as int);
                assert(cur =~= pre.push(cs@[i as int - 1]));
                if pre.contains('+') {
                    let w = choose|w: int| 0 <= w < pre.len() && pre[w] == '+';
                    assert(cur[w] == '+');
                    assert(cur.contains('+'));
                }
                if cs@[i as int - 1] == '+' {
                    assert(cur[i as int - 1] == '+');
                    assert(cur.contains('+'));
                }
                if cur.contains('+') && !pre.contains('+') && cs@[i as int - 1] != '+' {
                    let w = choose|w: int| 0 <= w < cur.len() && cur[w] == '+';
                    if w < i as int - 1 {
                        assert(pre[w] == '+');
                        assert(pre.contains('+'));
                    }
                }
            }
        }
        proof {
            assert(cs@.take(n as int) =~= cs@);
        }
        if !has_plus {
            // single voice: bucket 0, read in tenths
            match self.find_voice(&cs) {
                Some(k) => {
                    proof {
                        lemma_spec_find_valid(self.entries@, cs@);
                    }
                    let voice = &self.entries[k];
                    let bucket = &voice.buckets[0];
                    let mut row: Vec<i128> = Vec::new();
                    let mut j: usize = 0;
                    while j < STYLE_DIM
                        invariant
                            j <= STYLE_DIM,
                            bucket@.len() == STYLE_DIM,
                            bucket@ == voice_bucket0(self.entries@, cs@),
                            row@.len() == j,
                            forall|t: int| 0 <= t < j ==> row@[t] == DECI_SCALE * voice_bucket0(
                                self.entries@,
                                cs@,
                            )[t],
                        decreases STYLE_DIM - j,
                    {
                        row.push(DECI_SCALE * (bucket[j] as i128));
                        j = j + 1;
                    }
                    let mut rows: Vec<Vec<i128>> = Vec::new();
                    rows.push(row);
                    Ok(rows)
                },
                None => Err(StyleResolutionError::UnknownVoice),
            }
        } else {
            // blend: split, parse, accumulate
            let pieces = split_plus(&cs);
            let comps = parse_components(&pieces);
            let ghost scomps = spec_components(cs@);
            proof {
                assert(pieces.deep_view() == spec_split(cs@));
            }
            if comps.len() == 0 {
                return Err(StyleResolutionError::NoValidComponents);
            }
            let mut row: Vec<i128> = Vec::new();
            let mut j: usize = 0;
            while j < STYLE_DIM
                invariant
                    j <= STYLE_DIM,
                    row@.len() == j,
                    forall|t: int| 0 <= t < j ==> row@[t] == 0,
                decreases STYLE_DIM - j,
            {
                row.push(0);
                j = j + 1;
            }
            let m = comps.len();
            let mut i: usize = 0;
            while i < m
                invariant
                    self.wf(),
                    m == comps@.len(),
                    i <= m,
                    row@.len() == STYLE_DIM,
                    scomps == spec_components(cs@),
                    comps@.len() == scomps.len(),
                    forall|k: int| 0 <= k < comps@.len() ==> (#[trigger] comps@[k]).0@ == scomps[k].0
                        && comps@[k].1 as int == scomps[k].1,
                    forall|k: int| 0 <= k < comps@.len() ==> 0 <= (#[trigger] comps@[k]).1 <= 9,
                    forall|t: int| 0 <= t < STYLE_DIM ==> #[trigger] row@[t] == spec_blend_at(
                        self.entries@,
                        scomps.take(i as int),
                        t,
                    ),
                    forall|t: int| 0 <= t < STYLE_DIM ==> -(9 * (STYLE_VALUE_BOUND as int) * (
                    i as int)) <= #[trigger] row@[t] <= 9 * (STYLE_VALUE_BOUND as int) * (i as int),
                decreases m - i,
            {
                let ghost pre = scomps.take(i as int);
                let ghost post = scomps.take(i as int + 1);
                proof {
                    assert(post.drop_last() =~= pre);
                    assert(post.last() == scomps[i as int]);
                    assert((i + 1) as int <= 0x1_0000_0000_0000_0000int);
                    assert((9 * (STYLE_VALUE_BOUND as int)) * ((i + 1) as int) <= (9 * (
                    STYLE_VALUE_BOUND as int)) * 0x1_0000_0000_0000_0000int) by (nonlinear_arith)
                        requires
                            (i + 1) as int <= 0x1_0000_0000_0000_0000int,
                    ;
                    assert((9 * (STYLE_VALUE_BOUND as int)) * (i as int) <= (9 * (
                    STYLE_VALUE_BOUND as int)) * 0x1_0000_0000_0000_0000int) by (nonlinear_arith)
                        requires
                            i as int <= 0x1_0000_0000_0000_0000int,
                    ;
                }
                let digit = comps[i].1;
                match self.find_voice(&comps[i].0) {
                    Some(k) => {
                        proof {
                            lemma_spec_find_valid(self.entries@, comps@[i as int].0@);
                        }
                        let voice = &self.entries[k];
                        let bucket = &voice.buckets[0];
                        let mut j: usize = 0;
                        while j < STYLE_DIM
                            invariant
                                j <= STYLE_DIM,
                                row@.len() == STYLE_DIM,
                                bucket@.len() == STYLE_DIM,
                                0 <= digit <= 9,
                                digit as int == scomps[i as int].1,
                                i < scomps.len(),
                                has_voice(self.entries@, scomps[i as int].0),
                                bucket@ == voice_bucket0(self.entries@, scomps[i as int].0),
                                forall|t: int| 0 <= t < STYLE_DIM ==> -STYLE_VALUE_BOUND <= (
                                #[trigger] bucket@[t]) <= STYLE_VALUE_BOUND,
                                pre == scomps.take(i as int),
                                post == scomps.take(i as int + 1),
                                post.drop_last() == pre,
                                post.last() == scomps[i as int],
                                forall|t: int| j <= t < STYLE_DIM ==> #[trigger] row@[t]
                                    == spec_blend_at(self.entries@, pre, t),
                                forall|t: int| 0 <= t < j ==> #[trigger] row@[t] == spec_blend_at(
                                    self.entries@,
                                    post,
                                    t,
                                ),
                                forall|t: int| j <= t < STYLE_DIM ==> -(9 * (STYLE_VALUE_BOUND as int)
                                    * (i as int)) <= #[trigger] row@[t] <= 9 * (
                                STYLE_VALUE_BOUND as int) * (i as int),
                                forall|t: int| 0 <= t < j ==> -(9 * (STYLE_VALUE_BOUND as int) * ((
                                i + 1) as int)) <= #[trigger] row@[t] <= 9 * (
                                STYLE_VALUE_BOUND as int) * ((i + 1) as int),
                            decreases STYLE_DIM - j,
                        {
                            let bv: i64 = bucket[j];
                            proof {
                                assert(-(9 * (STYLE_VALUE_BOUND as int)) <= (digit as int) * (
                                bv as int) <= 9 * (STYLE_VALUE_BOUND as int)) by (nonlinear_arith)
                                    requires
                                        0 <= digit as int <= 9,
                                        -STYLE_VALUE_BOUND <= bv <= STYLE_VALUE_BOUND,
                                ;
                            }
                            let weighted: i128 = (digit as i128) * (bv as i128);
                            let updated: i128 = row[j] + weighted;
                            row[j] = updated;
                            j = j + 1;
                        }
                        proof {
                            assert forall|t: int| 0 <= t < STYLE_DIM implies #[trigger] row@[t]
                                == spec_blend_at(self.entries@, post, t) by {
                            }
                        }
                    },
                    None => {
                        proof {
                            assert(!has_voice(self.entries@, scomps[i as int].0));
                            assert forall|t: int| 0 <= t < STYLE_DIM implies #[trigger] row@[t]
                                == spec_blend_at(self.entries@, post, t) by {
                                assert(spec_blend_at(self.entries@, post, t) == spec_blend_at(
                                    self.entries@,
                                    pre,
                                    t,
                                ));
                            }
                            assert(9 * (STYLE_VALUE_BOUND as int) * ((i + 1) as int) == 9 * (
                            STYLE_VALUE_BOUND as int) * (i as int) + 9 * (STYLE_VALUE_BOUND as int))
                                by (nonlinear_arith);
                            assert forall|t: int| 0 <= t < STYLE_DIM implies -(9 * (
                            STYLE_VALUE_BOUND as int) * ((i + 1) as int)) <= #[trigger] row@[t] <= 9
                                * (STYLE_VALUE_BOUND as int) * ((i + 1) as int) by {
                            }
                        }
                    },
                }
                i = i + 1;
            }
            proof {
                assert(scomps.take(m as int) =~= scomps);
            }
            let mut rows: Vec<Vec<i128>> = Vec::new();
            rows.push(row);
            Ok(rows)
        }
    }
}

} // verus!

verus! {

/// Whether one raw entry has the persisted shape: STYLE_BUCKETS buckets, each
/// one row of STYLE_DIM components.
pub open spec fn raw_shape_ok(e: (String, Vec<Vec<Vec<i64>>>)) -> bool {
    &&& e.1@.len() == STYLE_BUCKETS
    &&& forall|b: int| 0 <= b < e.1@.len() ==> (#[trigger] e.1@[b])@.len() == 1
    &&& forall|b: int| 0 <= b < e.1@.len() ==> (#[trigger] e.1@[b])@[0]@.len() == STYLE_DIM
}

/// Whether every component of one raw entry lies within STYLE_VALUE_BOUND.
pub open spec fn raw_values_ok(e: (String, Vec<Vec<Vec<i64>>>)) -> bool {
    forall|b: int, j: int|
        0 <= b < e.1@.len() && 0 <= j < e.1@[b]@[0]@.len() ==> -STYLE_VALUE_BOUND <= (#[trigger] e.1@[b]@[0]@[j]) <= STYLE_VALUE_BOUND
}

/// Whether the raw entries carry pairwise distinct voice names.
pub open spec fn raw_names_unique(raw: Seq<(String, Vec<Vec<Vec<i64>>>)>) -> bool {
    forall|i: int, k: int|
        0 <= i < k < raw.len() ==> (#[trigger] raw[i]).0@ != (#[trigger] raw[k]).0@
}

impl VoiceStyleTable {
    /// Builds the style table from parsed persisted data: one entry per voice,
    /// each a STYLE_BUCKETS x 1 x STYLE_DIM array of components. Fails with
    /// `BadShape` when an entry deviates from that shape, `ValueOutOfRange`
    /// when a component exceeds the representable bound, and `DuplicateVoice`
    /// when two entries carry one name; succeeds exactly when nothing does.
    pub fn load_voices(raw: Vec<(String, Vec<Vec<Vec<i64>>>)>) -> (r: Result<
        VoiceStyleTable,
        LoadError,
    >)
        ensures
            r is Ok <==> ((forall|i: int|
                0 <= i < raw@.len() ==> raw_shape_ok(#[trigger] raw@[i]) && raw_values_ok(raw@[i]))
                && raw_names_unique(raw@)),
            r matches Ok(t) ==> {
                &&& t.wf()
                &&& t.entries@.len() == raw@.len()
                &&& forall|i: int|
                    0 <= i < raw@.len() ==> (#[trigger] t.entries@[i]).name@ == raw@[i].0@
                &&& forall|i: int, b: int|
                    0 <= i < raw@.len() && 0 <= b < STYLE_BUCKETS ==> (#[trigger] t.entries@[i].buckets@[b])@ == raw@[i].1@[b]@[0]@
            },
            r == Err::<VoiceStyleTable, LoadError>(LoadError::BadShape) ==> exists|i: int|
                0 <= i < raw@.len() && !raw_shape_ok(#[trigger] raw@[i]),
            r == Err::<VoiceStyleTable, LoadError>(LoadError::ValueOutOfRange) ==> exists|i: int|
                0 <= i < raw@.len() && !raw_values_ok(#[trigger] raw@[i]),
            r == Err::<VoiceStyleTable, LoadError>(LoadError::DuplicateVoice) ==> !raw_names_unique(
                raw@,
            ),
    {
        let n = raw.len();
        let mut entries: Vec<VoiceStyle> = Vec::new();
        let mut i: usize = 0;
        while i < n
            invariant
                n == raw@.len(),
                i <= n,
                entries@.len() == i,
                forall|k: int| 0 <= k < i ==> (#[trigger] entries@[k]).name@ == raw@[k].0@,
                forall|k: int| 0 <= k < i ==> (#[trigger] entries@[k]).wf(),
                forall|k: int, b: int|
                    0 <= k < i && 0 <= b < STYLE_BUCKETS ==> (#[trigger] entries@[k].buckets@[b])@
                        == raw@[k].1@[b]@[0]@,
                forall|k: int| 0 <= k < i ==> raw_shape_ok(#[trigger] raw@[k]) && raw_values_ok(
                    raw@[k],
                ),
                forall|k: int, l: int| 0 <= k < l < i ==> (#[trigger] raw@[k]).0@ != (
                #[trigger] raw@[l]).0@,
            decreases n - i,
        {
            let e = &raw[i];
            if e.1.len() != STYLE_BUCKETS {
                return Err(LoadError::BadShape);
            }
            let mut buckets: Vec<Vec<i64>> = Vec::new();
            let mut b: usize = 0;
            while b < STYLE_BUCKETS
                invariant
                    n == raw@.len(),
                    i < n,
                    e == raw@[i as int],
                    e.1@.len() == STYLE_BUCKETS,
                    b <= STYLE_BUCKETS,
                    buckets@.len() == b,
                    forall|t: int| 0 <= t < b ==> (#[trigger] e.1@[t])@.len() == 1,
                    forall|t: int| 0 <= t < b ==> (#[trigger] e.1@[t])@[0]@.len() == STYLE_DIM,
                    forall|t: int, j: int|
                        0 <= t < b && 0 <= j < e.1@[t]@[0]@.len() ==> -STYLE_VALUE_BOUND <= (
                        #[trigger] e.1@[t]@[0]@[j]) <= STYLE_VALUE_BOUND,
                    forall|t: int| 0 <= t < b ==> (#[trigger] buckets@[t])@ == e.1@[t]@[0]@,
                decreases STYLE_BUCKETS - b,
            {
                let layer = &e.1[b];
                if layer.len() != 1 {
                    return Err(LoadError::BadShape);
                }
                let row = &layer[0];
                if row.len() != STYLE_DIM {
                    return Err(LoadError::BadShape);
                }
                let mut j: usize = 0;
                while j < STYLE_DIM
                    invariant
                        n == raw@.len(),
                        i < n,
                        e == raw@[i as int],
                        e.1@.len() == STYLE_BUCKETS,
                        b < STYLE_BUCKETS,
                        row@ == e.1@[b as int]@[0]@,
                        row@.len() == STYLE_DIM,
                        j <= STYLE_DIM,
                        forall|t: int| 0 <= t < j ==> -STYLE_VALUE_BOUND <= (#[trigger] row@[t])
                            <= STYLE_VALUE_BOUND,
                    decreases STYLE_DIM - j,
                {
                    let v = row[j];
                    if v > STYLE_VALUE_BOUND || v < -STYLE_VALUE_BOUND {
                        proof {
                            assert(e.1@[b as int]@[0]@[j as int] == v);
                            assert(!raw_values_ok(raw@[i as int]));
                        }
                        return Err(LoadError::ValueOutOfRange);
                    }
                    j = j + 1;
                }
                buckets.push(copy_row(row));
                b = b + 1;
            }
            // the name must be new
            let name_chars = chars_of(e.0.as_str());
            let mut k: usize = 0;
            while k < i
                invariant
                    i < n,
                    n == raw@.len(),
                    entries@.len() == i,
                    name_chars@ == raw@[i as int].0@,
                    forall|t: int| 0 <= t < i ==> (#[trigger] entries@[t]).name@ == raw@[t].0@,
                    k <= i,
                    forall|t: int| 0 <= t < k ==> (#[trigger] raw@[t]).0@ != raw@[i as int].0@,
                decreases i - k,
            {
                if string_eq_chars(entries[k].name.as_str(), &name_chars) {
                    proof {
                        assert(raw@[k as int].0@ == raw@[i as int].0@);
                        assert(!raw_names_unique(raw@));
                    }
                    return Err(LoadError::DuplicateVoice);
                }
                k = k + 1;
            }
            entries.push(VoiceStyle { name: e.0.clone(), buckets });
            i = i + 1;
        }
        Ok(VoiceStyleTable { entries })
    }
}

} // verus!
