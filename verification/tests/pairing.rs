use teleecho::error::ErrorKind;
use teleecho::pairing::{IncomingMessage, Pairing, PairingAction, PAIRING_CODES};

fn message(chat_id: i64, name: &str, text: Option<&str>) -> IncomingMessage {
    IncomingMessage {
        chat_id,
        first_name: name.to_string(),
        text: text.map(|t| t.to_string()),
    }
}

#[test]
fn drawn_code_is_below_the_bound() {
    assert_eq!(PAIRING_CODES, 99_999);
    for _ in 0..200 {
        let p = Pairing::start("tok");
        assert!(p.code() < 99_999);
        assert_eq!(p.user_id(), None);
        assert_eq!(p.code_text(), format!("{}", p.code()));
    }
}

#[test]
fn drawn_codes_differ() {
    let first = Pairing::start("tok").code();
    let mut differs = false;
    for _ in 0..64 {
        if Pairing::start("tok").code() != first {
            differs = true;
        }
    }
    assert!(differs);
}

#[test]
fn code_in_decimal() {
    assert_eq!(Pairing::with_code("t", 0).code_text(), "0");
    assert_eq!(Pairing::with_code("t", 7).code_text(), "7");
    assert_eq!(Pairing::with_code("t", 4711).code_text(), "4711");
    assert_eq!(Pairing::with_code("t", 99_998).code_text(), "99998");
    assert_eq!(Pairing::with_code("t", u32::MAX).code_text(), "4294967295");
}

#[test]
fn matching_text_pairs_the_chat() {
    let mut p = Pairing::with_code("tok", 4711);
    let a = p.on_update(Some(message(55, "Ada", Some("4711"))));
    assert_eq!(
        a,
        PairingAction::Confirm { chat_id: 55, text: "correct number!".to_string() }
    );
    assert_eq!(p.user_id(), Some(55));
    assert_eq!(p.finish().unwrap(), ("tok".to_string(), 55));
}

#[test]
fn wrong_text_is_noted_and_passed_over() {
    let mut p = Pairing::with_code("tok", 4711);
    let a = p.on_update(Some(message(55, "Ada", Some("4712"))));
    assert_eq!(a, PairingAction::WrongNumber { first_name: "Ada".to_string() });
    assert_eq!(p.user_id(), None);
    let b = p.on_update(Some(message(55, "Ada", Some("04711"))));
    assert_eq!(b, PairingAction::WrongNumber { first_name: "Ada".to_string() });
    let c = p.on_update(Some(message(55, "Ada", Some(" 4711"))));
    assert_eq!(c, PairingAction::WrongNumber { first_name: "Ada".to_string() });
    assert_eq!(p.user_id(), None);
}

#[test]
fn update_without_a_text_is_passed_over() {
    let mut p = Pairing::with_code("tok", 4711);
    assert_eq!(p.on_update(None), PairingAction::Continue);
    assert_eq!(p.on_update(Some(message(1, "Bo", None))), PairingAction::Continue);
    assert_eq!(p.user_id(), None);
}

#[test]
fn finish_without_a_match_fails() {
    let mut p = Pairing::with_code("tok", 1);
    p.on_update(Some(message(1, "Bo", Some("2"))));
    assert!(matches!(p.finish(), Err(ErrorKind::UserIdEmpty)));
}

#[test]
fn match_after_wrong_numbers() {
    let mut p = Pairing::with_code("tok", 0);
    assert_eq!(
        p.on_update(Some(message(1, "Bo", Some("zero")))),
        PairingAction::WrongNumber { first_name: "Bo".to_string() }
    );
    assert_eq!(
        p.on_update(Some(message(2, "Cy", Some("0")))),
        PairingAction::Confirm { chat_id: 2, text: "correct number!".to_string() }
    );
    assert_eq!(p.finish().unwrap(), ("tok".to_string(), 2));
}
