use xmpp_start::bookmarks::{BookmarkManager, XmlElement};

const NS_BOOKMARKS: &str = "storage:bookmarks";
const NS_PRIVATE: &str = "jabber:iq:private";

fn element(name: &str, ns: &str, attrs: &[(&str, &str)]) -> XmlElement {
    XmlElement {
        name: name.to_string(),
        ns: ns.to_string(),
        attrs: attrs.iter().map(|(k, v)| (k.to_string(), v.to_string())).collect(),
        children: Vec::new(),
        text: String::new(),
    }
}

fn storage_with_three_rooms() -> XmlElement {
    let mut storage = element("storage", NS_BOOKMARKS, &[]);
    let mut conf1 = element(
        "conference",
        NS_BOOKMARKS,
        &[("jid", "room1@server"), ("name", "Room One"), ("autojoin", "true")],
    );
    let mut nick_el = element("nick", NS_BOOKMARKS, &[]);
    nick_el.text = "Alice".to_string();
    conf1.children.push(nick_el);
    storage.children.push(conf1);
    storage
        .children
        .push(element("conference", NS_BOOKMARKS, &[("jid", "room2@server"), ("autojoin", "1")]));
    storage.children.push(element("conference", NS_BOOKMARKS, &[("jid", "room3@server")]));
    storage
}

#[test]
fn parse_bookmarks_from_iq_parses_conference() {
    let storage = storage_with_three_rooms();
    let bookmarks = BookmarkManager::parse_bookmarks_from_iq(&storage);
    assert_eq!(bookmarks.len(), 3);

    let b1 = &bookmarks[0];
    assert_eq!(b1.jid, "room1@server");
    assert_eq!(b1.name, Some("Room One".to_string()));
    assert!(b1.autojoin);
    assert_eq!(b1.nick, Some("Alice".to_string()));

    let b2 = &bookmarks[1];
    assert_eq!(b2.jid, "room2@server");
    assert!(b2.autojoin, "autojoin='1' should parse as true");

    let b3 = &bookmarks[2];
    assert_eq!(b3.jid, "room3@server");
    assert!(!b3.autojoin);
    assert!(b3.nick.is_none());
}

#[test]
fn parse_bookmarks_from_full_iq() {
    let mut iq = element("iq", "jabber:client", &[("type", "result")]);
    let mut query = element("query", NS_PRIVATE, &[]);
    query.children.push(storage_with_three_rooms());
    iq.children.push(query);
    let bookmarks = BookmarkManager::parse_bookmarks_from_iq(&iq);
    assert_eq!(bookmarks.len(), 3);
    assert_eq!(bookmarks[2].jid, "room3@server");
}

#[test]
fn parse_bookmarks_ignores_other_elements_and_wrong_namespaces() {
    let mut storage = element("storage", NS_BOOKMARKS, &[]);
    storage.children.push(element("url", NS_BOOKMARKS, &[("url", "https://x")]));
    let mut conf = element("conference", NS_BOOKMARKS, &[("autojoin", "yes")]);
    let mut pw = element("password", "other:ns", &[]);
    pw.text = "secret".to_string();
    conf.children.push(pw);
    storage.children.push(conf);
    let bookmarks = BookmarkManager::parse_bookmarks_from_iq(&storage);
    assert_eq!(bookmarks.len(), 1);
    assert_eq!(bookmarks[0].jid, "");
    assert!(!bookmarks[0].autojoin);
    assert!(bookmarks[0].password.is_none());

    let wrong = element("storage", "storage:other", &[]);
    assert!(BookmarkManager::parse_bookmarks_from_iq(&wrong).is_empty());
}
