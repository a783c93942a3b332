use pong_sim::body_id::{BodyId, BODY_ID_LEN};

#[test]
fn body_id_pads_short_names_with_zeros() {
    let id = BodyId::new("ball");
    assert_eq!(&id.data[..4], b"ball");
    assert!(id.data[4..].iter().all(|&b| b == 0));
    assert_eq!(id.as_str(), "ball");
}

#[test]
fn body_id_keeps_a_name_of_full_width() {
    let name = "abcdefghijklmnopqrstuvwxyz012345";
    assert_eq!(name.len(), BODY_ID_LEN);
    assert_eq!(BodyId::new(name).as_str(), name);
}

#[test]
fn body_id_truncates_long_names() {
    let name = "paddle_with_a_rather_long_identifier_name";
    let id = BodyId::new(name);
    assert_eq!(id.as_str(), &name[..32]);
}

#[test]
fn body_id_cut_inside_a_character_reads_back_empty() {
    let name = format!("{}é", "a".repeat(31));
    assert_eq!(name.len(), 33);
    assert_eq!(BodyId::new(&name).as_str(), "");
}

#[test]
fn body_id_stops_at_a_zero_byte() {
    assert_eq!(BodyId::new("wall\0_3").as_str(), "wall");
}

#[test]
fn body_id_of_empty_name_is_empty() {
    let id = BodyId::new("");
    assert_eq!(id.data, [0u8; 32]);
    assert_eq!(id.as_str(), "");
}
