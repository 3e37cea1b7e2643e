//! XEP-0048 room bookmarks in private XML storage (XEP-0048 §3.2).
//!
//! A pure data module: the stanza arrives as an `XmlElement`, a plain copy of
//! the parsed XML tree.

use vstd::prelude::*;

use crate::text::{opt_string, string_from_chars, string_is};

verus! {

/// Namespace of the bookmark storage element.
pub open spec fn ns_bookmarks() -> Seq<char> {
    "storage:bookmarks"@
}

/// Namespace of the private XML storage query.
pub open spec fn ns_private() -> Seq<char> {
    "jabber:iq:private"@
}

/// An XML element as the logic reads it: its name, namespace, attributes,
/// child elements and the concatenation of its direct text nodes.
#[derive(Debug)]
pub struct XmlElement {
    pub name: String,
    pub ns: String,
    /// Attributes as `(name, value)` pairs.
    pub attrs: Vec<(String, String)>,
    /// Child elements, in document order.
    pub children: Vec<XmlElement>,
    /// The text directly inside the element.
    pub text: String,
}

/// A single XMPP MUC room bookmark (XEP-0048).
#[derive(Debug, Clone, PartialEq)]
pub struct Bookmark {
    /// MUC room JID (e.g. `room@conference.example.org`).
    pub jid: String,
    /// Human-readable room name.
    pub name: Option<String>,
    /// Join this room automatically on login.
    pub autojoin: bool,
    /// Preferred nickname inside the room.
    pub nick: Option<String>,
    /// Room password, if required.
    pub password: Option<String>,
}

/// The abstract content of a bookmark.
pub struct BookmarkView {
    pub jid: Seq<char>,
    pub name: Option<Seq<char>>,
    pub autojoin: bool,
    pub nick: Option<Seq<char>>,
    pub password: Option<Seq<char>>,
}

impl View for Bookmark {
    type V = BookmarkView;

    open spec fn view(&self) -> BookmarkView {
        BookmarkView {
            jid: self.jid@,
            name: opt_string(self.name),
            autojoin: self.autojoin,
            nick: opt_string(self.nick),
            password: opt_string(self.password),
        }
    }
}

/// The value of the first attribute of `el` named `key`.
pub open spec fn attr_of(attrs: Seq<(String, String)>, key: Seq<char>) -> Option<Seq<char>>
    decreases attrs.len(),
{
    if attrs.len() == 0 {
        None
    } else if attrs[0].0@ == key {
        Some(attrs[0].1@)
    } else {
        attr_of(attrs.drop_first(), key)
    }
}

/// Index of the first child element named `name` in namespace `ns`.
pub open spec fn child_index_from(cs: Seq<XmlElement>, name: Seq<char>, ns: Seq<char>, i: int) -> Option<int>
    decreases cs.len() - i,
{
    if i < 0 || i >= cs.len() {
        None
    } else if cs[i].name@ == name && cs[i].ns@ == ns {
        Some(i)
    } else {
        child_index_from(cs, name, ns, i + 1)
    }
}

/// The first child element of `el` named `name` in namespace `ns`.
pub open spec fn get_child(el: XmlElement, name: Seq<char>, ns: Seq<char>) -> Option<XmlElement> {
    match child_index_from(el.children@, name, ns, 0) {
        Some(i) => Some(el.children@[i]),
        None => None,
    }
}

/// The bookmark storage element: `el` itself when it is a bare `<storage>`
/// element, else the `<storage>` inside the `<query>` of an `<iq>`.
pub open spec fn storage_of(el: XmlElement) -> Option<XmlElement> {
    if el.name@ == "storage"@ && el.ns@ == ns_bookmarks() {
        Some(el)
    } else {
        match get_child(el, "query"@, ns_private()) {
            Some(query) => get_child(query, "storage"@, ns_bookmarks()),
            None => None,
        }
    }
}

/// The bookmark that a `<conference>` element describes; missing optional
/// attributes and children are tolerated.
pub open spec fn bookmark_of(conf: XmlElement) -> BookmarkView {
    let autojoin = attr_of(conf.attrs@, "autojoin"@);
    BookmarkView {
        jid: match attr_of(conf.attrs@, "jid"@) {
            Some(j) => j,
            None => Seq::empty(),
        },
        name: attr_of(conf.attrs@, "name"@),
        autojoin: autojoin == Some("true"@) || autojoin == Some("1"@),
        nick: match get_child(conf, "nick"@, ns_bookmarks()) {
            Some(n) => Some(n.text@),
            None => None,
        },
        password: match get_child(conf, "password"@, ns_bookmarks()) {
            Some(p) => Some(p.text@),
            None => None,
        },
    }
}

/// The bookmarks of the `<conference>` elements among `cs`, in order.
pub open spec fn conference_bookmarks(cs: Seq<XmlElement>) -> Seq<BookmarkView>
    decreases cs.len(),
{
    if cs.len() == 0 {
        Seq::empty()
    } else if cs.last().name@ == "conference"@ {
        conference_bookmarks(cs.drop_last()).push(bookmark_of(cs.last()))
    } else {
        conference_bookmarks(cs.drop_last())
    }
}

/// The bookmarks that `el` carries.
pub open spec fn bookmarks_of(el: XmlElement) -> Seq<BookmarkView> {
    match storage_of(el) {
        Some(storage) => conference_bookmarks(storage.children@),
        None => Seq::empty(),
    }
}

/// The views of a sequence of bookmarks.
pub open spec fn bookmark_views(bs: Seq<Bookmark>) -> Seq<BookmarkView> {
    bs.map_values(|b: Bookmark| b@)
}

fn find_attr(attrs: &Vec<(String, String)>, key: &str) -> (r: Option<String>)
    ensures
        opt_string(r) == attr_of(attrs@, key@),
{
    let mut i: usize = 0;
    assert(attrs@.skip(0) =~= attrs@);
    while i < attrs.len()
        invariant
            i <= attrs.len(),
            attr_of(attrs@, key@) == attr_of(attrs@.skip(i as int), key@),
        decreases attrs.len() - i,
    {
        assert(attrs@.skip(i as int).drop_first() =~= attrs@.skip(i + 1));
        if string_is(&attrs[i].0, key) {
            return Some(attrs[i].1.clone());
        }
        i = i + 1;
    }
    None
}

fn find_child<'a>(el: &'a XmlElement, name: &str, ns: &str) -> (r: Option<&'a XmlElement>)
    ensures
        match r {
            Some(c) => get_child(*el, name@, ns@) == Some(*c),
            None => get_child(*el, name@, ns@) is None,
        },
{
    let mut i: usize = 0;
    while i < el.children.len()
        invariant
            i <= el.children.len(),
            child_index_from(el.children@, name@, ns@, 0) == child_index_from(
                el.children@,
                name@,
                ns@,
                i as int,
            ),
        decreases el.children.len() - i,
    {
        let c = &el.children[i];
        if string_is(&c.name, name) && string_is(&c.ns, ns) {
            return Some(c);
        }
        i = i + 1;
    }
    None
}

fn child_text(el: &XmlElement, name: &str) -> (r: Option<String>)
    ensures
        opt_string(r) == match get_child(*el, name@, ns_bookmarks()) {
            Some(c) => Some(c.text@),
            None => None,
        },
{
    match find_child(el, name, "storage:bookmarks") {
        Some(c) => Some(c.text.clone()),
        None => None,
    }
}

fn bookmark_from_conference(conf: &XmlElement) -> (b: Bookmark)
    ensures
        b@ == bookmark_of(*conf),
{
    let jid = match find_attr(&conf.attrs, "jid") {
        Some(j) => j,
        None => String::new(),
    };
    let name = find_attr(&conf.attrs, "name");
    let autojoin = match find_attr(&conf.attrs, "autojoin") {
        Some(a) => string_is(&a, "true") || string_is(&a, "1"),
        None => false,
    };
    let nick = child_text(conf, "nick");
    let password = child_text(conf, "password");
    Bookmark { jid, name, autojoin, nick, password }
}

/// Manages the local set of room bookmarks.
pub struct BookmarkManager {
    bookmarks: Vec<Bookmark>,
}

impl View for BookmarkManager {
    type V = Seq<Bookmark>;

    closed spec fn view(&self) -> Seq<Bookmark> {
        self.bookmarks@
    }
}

impl BookmarkManager {
    /// Creates a new, empty manager.
    pub fn new() -> (r: Self)
        ensures
            r@ == Seq::<Bookmark>::empty(),
    {
        BookmarkManager { bookmarks: Vec::new() }
    }

    /// Replaces the entire bookmark list with `bookmarks`.
    pub fn set_bookmarks(&mut self, bookmarks: Vec<Bookmark>)
        ensures
            final(self)@ == bookmarks@,
    {
        self.bookmarks = bookmarks;
    }

    /// Parses bookmarks from a `<storage xmlns='storage:bookmarks'>` element,
    /// or from an `<iq>` wrapping `<query><storage>…</storage></query>`.
    ///
    /// Tolerates missing optional attributes/children gracefully.
    pub fn parse_bookmarks_from_iq(el: &XmlElement) -> (r: Vec<Bookmark>)
        ensures
            bookmark_views(r@) == bookmarks_of(*el),
    {
        let storage: &XmlElement = if string_is(&el.name, "storage") && string_is(
            &el.ns,
            "storage:bookmarks",
        ) {
            el
        } else {
            match find_child(el, "query", "jabber:iq:private") {
                Some(query) => match find_child(query, "storage", "storage:bookmarks") {
                    Some(s) => s,
                    None => return Vec::new(),
                },
                None => return Vec::new(),
            }
        };
        let mut out: Vec<Bookmark> = Vec::new();
        let mut i: usize = 0;
        while i < storage.children.len()
            invariant
                i <= storage.children.len(),
                storage_of(*el) == Some(*storage),
                bookmark_views(out@) =~= conference_bookmarks(storage.children@.take(i as int)),
            decreases storage.children.len() - i,
        {
            let child = &storage.children[i];
            proof {
                assert(storage.children@.take(i + 1).drop_last() =~= storage.children@.take(i as int));
            }
            if string_is(&child.name, "conference") {
                out.push(bookmark_from_conference(child));
            }
            i = i + 1;
        }
        assert(storage.children@.take(storage.children.len() as int) =~= storage.children@);
        out
    }
}

impl Default for BookmarkManager {
    fn default() -> (r: Self)
        ensures
            r@ == Seq::<Bookmark>::empty(),
    {
        Self::new()
    }
}

/// Child `i` is the first child named `name` in namespace `ns`: the search
/// from any earlier index finds it.
proof fn lemma_child_index_first(cs: Seq<XmlElement>, name: Seq<char>, ns: Seq<char>, k: int, i: int)
    requires
        0 <= k <= i < cs.len(),
        cs[i].name@ == name && cs[i].ns@ == ns,
        forall|j: int| 0 <= j < i ==> !((#[trigger] cs[j]).name@ == name && cs[j].ns@ == ns),
    ensures
        child_index_from(cs, name, ns, k) == Some(i),
    decreases i - k,
{
    if k < i {
        lemma_child_index_first(cs, name, ns, k + 1, i);
    }
}

/// No child at or after `k` is named `name` in namespace `ns`: the search
/// finds nothing.
proof fn lemma_child_index_none(cs: Seq<XmlElement>, name: Seq<char>, ns: Seq<char>, k: int)
    requires
        0 <= k,
        forall|j: int| 0 <= j < cs.len() ==> !((#[trigger] cs[j]).name@ == name && cs[j].ns@ == ns),
    ensures
        child_index_from(cs, name, ns, k) is None,
    decreases cs.len() - k,
{
    if k < cs.len() {
        lemma_child_index_none(cs, name, ns, k + 1);
    }
}

/// A `<conference>` with a `<password>` child in the `storage:bookmarks`
/// namespace gives a bookmark whose password is the text of the first such
/// child; without one the bookmark has no password. The same holds of
/// `<nick>` and the nickname.
pub proof fn lemma_bookmark_password_and_nick(conf: XmlElement, i: int)
    requires
        0 <= i < conf.children@.len(),
    ensures
        ({
            let c = conf.children@[i];
            (c.name@ == "password"@ && c.ns@ == "storage:bookmarks"@ && forall|j: int|
                0 <= j < i ==> !((#[trigger] conf.children@[j]).name@ == "password"@
                    && conf.children@[j].ns@ == "storage:bookmarks"@)) ==> bookmark_of(
                conf,
            ).password == Some(c.text@)
        }),
        ({
            let c = conf.children@[i];
            (c.name@ == "nick"@ && c.ns@ == "storage:bookmarks"@ && forall|j: int|
                0 <= j < i ==> !((#[trigger] conf.children@[j]).name@ == "nick"@
                    && conf.children@[j].ns@ == "storage:bookmarks"@)) ==> bookmark_of(conf).nick
                == Some(c.text@)
        }),
{
    let cs = conf.children@;
    let c = cs[i];
    if c.name@ == "password"@ && c.ns@ == "storage:bookmarks"@ && forall|j: int|
        0 <= j < i ==> !((#[trigger] cs[j]).name@ == "password"@ && cs[j].ns@
            == "storage:bookmarks"@) {
        lemma_child_index_first(cs, "password"@, "storage:bookmarks"@, 0, i);
    }
    if c.name@ == "nick"@ && c.ns@ == "storage:bookmarks"@ && forall|j: int|
        0 <= j < i ==> !((#[trigger] cs[j]).name@ == "nick"@ && cs[j].ns@ == "storage:bookmarks"@) {
        lemma_child_index_first(cs, "nick"@, "storage:bookmarks"@, 0, i);
    }
}

/// A `<conference>` without any `<password>` child in the
/// `storage:bookmarks` namespace gives a bookmark without a password.
pub proof fn lemma_bookmark_no_password(conf: XmlElement)
    requires
        forall|j: int|
            0 <= j < conf.children@.len() ==> !((#[trigger] conf.children@[j]).name@ == "password"@
                && conf.children@[j].ns@ == "storage:bookmarks"@),
    ensures
        bookmark_of(conf).password is None,
{
    lemma_child_index_none(conf.children@, "password"@, "storage:bookmarks"@, 0);
}

} // verus!
