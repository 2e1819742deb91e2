use website::hits::{FoundDocument, SearchHit, StoredField, StoredValue};
use website::ident::{ulid_from_string, IdError, HASH_MASK};
use website::page::Page;

/// The text under which the index stores an identifier.
fn id_to_text(id: u128) -> String {
    let page = Page {
        id,
        title: None,
        modified: 0,
        url: String::new(),
        tags: Vec::new(),
        markdown: String::new(),
        html: String::new(),
    };
    page.record().id
}

/// The identifier that a hit reads from the stored text.
fn id_from_text(text: &str) -> Result<u128, IdError> {
    let mut found = FoundDocument::new();
    found.push(StoredField { name: "id".to_string(), value: StoredValue::Text(text.to_string()) });
    SearchHit::try_from_document(&found).map(|hit| hit.id)
}

#[test]
fn derived_id_of_empty_title_is_the_masked_hash() {
    assert_eq!(ulid_from_string(""), 0x98d8_6001_c324_468d_497f);
}

#[test]
fn derived_id_matches_the_hash_of_the_bytes() {
    let expected = xxhash_rust::xxh3::xxh3_128("Test Page".as_bytes()) & HASH_MASK;
    assert_eq!(ulid_from_string("Test Page"), expected);
    assert_eq!(ulid_from_string("Test Page"), 0xac1b_f07e_cf78_97fd_608b);
}

#[test]
fn derived_id_is_stable_and_has_a_zero_timestamp() {
    let first = ulid_from_string("About this site");
    let second = ulid_from_string("About this site");
    assert_eq!(first, second);
    assert_eq!(first >> 80, 0);
    assert_ne!(first, ulid_from_string("About that site"));
}

#[test]
fn id_text_is_crockford_base32() {
    assert_eq!(id_to_text(0), "00000000000000000000000000");
    assert_eq!(id_to_text(u128::MAX), "7ZZZZZZZZZZZZZZZZZZZZZZZZZ");
    assert_eq!(id_to_text(0x4141_4141_4141_4141_4141_4141_4141_4141), "21850M2GA1850M2GA1850M2GA1");
    assert_eq!(id_to_text(ulid_from_string("Test Page")), "0000000000NGDZ0ZPFF2BZTR4B");
}

#[test]
fn id_text_reads_back() {
    for id in [0u128, 1, 0x98d8_6001_c324_468d_497f, u128::MAX] {
        assert_eq!(id_from_text(&id_to_text(id)), Ok(id));
    }
    assert_eq!(
        id_from_text("01D39ZY06FGSCTVN4T2V9PKHFZ"),
        Ok(0x0168_d3ff_00cf_8659_add4_9a16_d369_c5ff)
    );
    assert_eq!(
        id_from_text("01d39zy06fgsctvn4t2v9pkhfz"),
        Ok(0x0168_d3ff_00cf_8659_add4_9a16_d369_c5ff)
    );
}

#[test]
fn id_text_of_wrong_length_is_refused() {
    assert_eq!(id_from_text(""), Err(IdError::InvalidLength));
    assert_eq!(id_from_text("01D39ZY06FGSCTVN4T2V9PKHF"), Err(IdError::InvalidLength));
    assert_eq!(id_from_text("01D39ZY06FGSCTVN4T2V9PKHFZ0"), Err(IdError::InvalidLength));
    assert_eq!(id_from_text("01D39ZY06FGSCTVN4T2V9PKH\u{e9}"), Err(IdError::InvalidChar));
}

#[test]
fn id_text_with_a_foreign_character_is_refused() {
    assert_eq!(id_from_text("01D39ZY06FGSCTVN4T2V9PKHFU"), Err(IdError::InvalidChar));
    assert_eq!(id_from_text("01D39ZY06FGSCTVN4T2V9PKH-Z"), Err(IdError::InvalidChar));
}
