use kokoros::voice::{
    LoadError, StyleResolutionError, VoiceStyleTable, STYLE_BUCKETS, STYLE_DIM, STYLE_VALUE_BOUND,
};

/// One raw voice whose bucket-0 component `j` is `base + j`; the other buckets
/// hold a distinct value so tests notice if the wrong bucket is read.
fn raw_voice(name: &str, base: i64) -> (String, Vec<Vec<Vec<i64>>>) {
    let mut buckets = Vec::new();
    for b in 0..STYLE_BUCKETS {
        let mut row = Vec::new();
        for j in 0..STYLE_DIM {
            if b == 0 {
                row.push(base + j as i64);
            } else {
                row.push(-1);
            }
        }
        buckets.push(vec![row]);
    }
    (name.to_string(), buckets)
}

fn table_ab() -> VoiceStyleTable {
    VoiceStyleTable::load_voices(vec![raw_voice("a", 1000), raw_voice("b", -500)]).unwrap()
}

#[test]
fn load_voices_accepts_well_shaped_entries() {
    let table = VoiceStyleTable::load_voices(vec![raw_voice("voiceA", 7)]);
    assert!(table.is_ok());
}

#[test]
fn load_voices_rejects_wrong_bucket_count() {
    let (name, mut buckets) = raw_voice("voiceA", 7);
    buckets.pop();
    assert_eq!(
        VoiceStyleTable::load_voices(vec![(name, buckets)]),
        Err(LoadError::BadShape)
    );
}

#[test]
fn load_voices_rejects_wrong_middle_dimension() {
    let (name, mut buckets) = raw_voice("voiceA", 7);
    let row = buckets[3][0].clone();
    buckets[3].push(row);
    assert_eq!(
        VoiceStyleTable::load_voices(vec![(name, buckets)]),
        Err(LoadError::BadShape)
    );
}

#[test]
fn load_voices_rejects_wrong_row_width() {
    let (name, mut buckets) = raw_voice("voiceA", 7);
    buckets[0][0].pop();
    assert_eq!(
        VoiceStyleTable::load_voices(vec![(name, buckets)]),
        Err(LoadError::BadShape)
    );
}

#[test]
fn load_voices_rejects_out_of_range_value() {
    let (name, mut buckets) = raw_voice("voiceA", 7);
    buckets[2][0][5] = STYLE_VALUE_BOUND + 1;
    assert_eq!(
        VoiceStyleTable::load_voices(vec![(name, buckets)]),
        Err(LoadError::ValueOutOfRange)
    );
}

#[test]
fn load_voices_rejects_duplicate_names() {
    assert_eq!(
        VoiceStyleTable::load_voices(vec![raw_voice("same", 1), raw_voice("same", 2)]),
        Err(LoadError::DuplicateVoice)
    );
}

#[test]
fn single_voice_resolves_to_bucket_zero_in_tenths() {
    let table = table_ab();
    let rows = table.mix_styles("a").unwrap();
    assert_eq!(rows.len(), 1);
    assert_eq!(rows[0].len(), STYLE_DIM);
    for j in 0..STYLE_DIM {
        // ten times bucket 0, i.e. bucket 0 itself read in tenths of a unit
        assert_eq!(rows[0][j], 10 * (1000 + j as i128));
    }
}

#[test]
fn unknown_single_voice_fails() {
    let table = table_ab();
    assert_eq!(
        table.mix_styles("nope"),
        Err(StyleResolutionError::UnknownVoice)
    );
}

#[test]
fn blend_weighs_each_voice_by_its_digit() {
    let table = table_ab();
    let rows = table.mix_styles("a.4+b.6").unwrap();
    assert_eq!(rows.len(), 1);
    assert_eq!(rows[0].len(), STYLE_DIM);
    for j in 0..STYLE_DIM {
        let a = 1000 + j as i128;
        let b = -500 + j as i128;
        // 0.4*a + 0.6*b, exactly, in tenths of a unit
        assert_eq!(rows[0][j], 4 * a + 6 * b);
    }
}

#[test]
fn unknown_blend_component_contributes_zero() {
    let table = table_ab();
    let rows = table.mix_styles("a.4+unknown.6").unwrap();
    for j in 0..STYLE_DIM {
        let a = 1000 + j as i128;
        assert_eq!(rows[0][j], 4 * a);
    }
}

#[test]
fn empty_request_fails_with_no_valid_components() {
    let table = table_ab();
    assert_eq!(
        table.mix_styles(""),
        Err(StyleResolutionError::NoValidComponents)
    );
}

#[test]
fn blend_with_no_parsable_component_fails() {
    let table = table_ab();
    // missing dot, non-digit weight, multi-digit weight: all skipped
    assert_eq!(
        table.mix_styles("a+b.x+a.45"),
        Err(StyleResolutionError::NoValidComponents)
    );
}

#[test]
fn malformed_pieces_are_skipped_not_fatal() {
    let table = table_ab();
    let rows = table.mix_styles("a+b.6").unwrap();
    for j in 0..STYLE_DIM {
        let b = -500 + j as i128;
        assert_eq!(rows[0][j], 6 * b);
    }
}

#[test]
fn blend_of_all_unknown_voices_is_the_zero_vector() {
    let table = table_ab();
    let rows = table.mix_styles("x.4+y.6").unwrap();
    for j in 0..STYLE_DIM {
        assert_eq!(rows[0][j], 0);
    }
}

#[test]
fn weight_zero_contributes_nothing() {
    let table = table_ab();
    let rows = table.mix_styles("a.0+b.1").unwrap();
    for j in 0..STYLE_DIM {
        let b = -500 + j as i128;
        assert_eq!(rows[0][j], b);
    }
}
