use xmpp_start::field_values::FieldValues;
use xmpp_start::presence::{presence_update, PresenceType};
use xmpp_start::text::{chars_of, lines, parse_u32, trim_chars};

#[test]
fn presence_availability() {
    let u = presence_update(Some("a@b.c/r".into()), PresenceType::Available).unwrap();
    assert_eq!(u.jid, "a@b.c/r");
    assert!(u.available);
    assert!(!presence_update(Some("a@b.c".into()), PresenceType::Unavailable).unwrap().available);
    assert!(!presence_update(Some("a@b.c".into()), PresenceType::Error).unwrap().available);
    assert!(presence_update(Some("a@b.c".into()), PresenceType::Subscribe).unwrap().available);
    assert!(presence_update(None, PresenceType::Available).is_none());
}

#[test]
fn field_values_insert_get_clear() {
    let mut fv = FieldValues::new();
    fv.insert("a".into(), "1".into());
    fv.insert("b".into(), "2".into());
    fv.insert("a".into(), "3".into());
    assert_eq!(fv.get(&"a".to_string()).as_deref(), Some("3"));
    assert_eq!(fv.get(&"b".to_string()).as_deref(), Some("2"));
    assert!(fv.get(&"c".to_string()).is_none());
    fv.clear();
    assert!(fv.get(&"a".to_string()).is_none());
}

#[test]
fn lines_match_str_lines() {
    for s in ["", "a", "a\n", "a\nb", "a\r\nb\r\n", "x\r", "\n\n", "a\rb\n"] {
        let got: Vec<String> = lines(&chars_of(s)).iter().map(|l| l.iter().collect()).collect();
        let want: Vec<String> = s.lines().map(|l| l.to_string()).collect();
        assert_eq!(got, want, "input {:?}", s);
    }
}

#[test]
fn parse_u32_and_trim_match_std() {
    for s in ["0", "42", "+7", "", "+", "-1", "4294967295", "4294967296", "00012", "1 2", "a"] {
        assert_eq!(parse_u32(&chars_of(s)), s.parse::<u32>().ok(), "input {:?}", s);
    }
    for s in ["  x  ", "\u{3000}y\u{85}", "", " \t\n", "a b"] {
        let got: String = trim_chars(&chars_of(s)).iter().collect();
        assert_eq!(got, s.trim(), "input {:?}", s);
    }
}
