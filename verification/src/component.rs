//! Component addresses of the form `protocol://host[/path]`.

use vstd::prelude::*;

verus! {

/// Whether the three characters `://` stand at position `i` of `s`.
pub open spec fn is_separator_at(s: Seq<char>, i: int) -> bool {
    &&& 0 <= i
    &&& i + 3 <= s.len()
    &&& s[i] == ':'
    &&& s[i + 1] == '/'
    &&& s[i + 2] == '/'
}

/// The first position at or after `from` where `://` stands in `s`.
pub open spec fn find_separator(s: Seq<char>, from: int) -> Option<int>
    decreases s.len() - from,
{
    if from < 0 || from + 3 > s.len() {
        None
    } else if is_separator_at(s, from) {
        Some(from)
    } else {
        find_separator(s, from + 1)
    }
}

/// The first position at or after `from` where `c` stands in `s`.
pub open spec fn find_char(s: Seq<char>, c: char, from: int) -> Option<int>
    decreases s.len() - from,
{
    if from < 0 || from >= s.len() {
        None
    } else if s[from] == c {
        Some(from)
    } else {
        find_char(s, c, from + 1)
    }
}

/// What `find_separator` returns is the first separator, and `None` means
/// that there is none.
pub proof fn lemma_find_separator(s: Seq<char>, from: int)
    requires
        0 <= from,
    ensures
        match find_separator(s, from) {
            Some(i) => from <= i && is_separator_at(s, i) && forall|j: int|
                from <= j < i ==> !is_separator_at(s, j),
            None => forall|j: int| from <= j ==> !is_separator_at(s, j),
        },
    decreases s.len() - from,
{
    if from + 3 <= s.len() && !is_separator_at(s, from) {
        lemma_find_separator(s, from + 1);
    }
}

/// The position of the first `://` in `text`.
pub fn separator_position(text: &str) -> (r: Option<usize>)
    ensures
        match r {
            Some(i) => find_separator(text@, 0) == Some(i as int),
            None => find_separator(text@, 0).is_none(),
        },
{
    let n = text.unicode_len();
    let mut i: usize = 0;
    while i < n && n - i >= 3
        invariant
            i <= n,
            n == text@.len(),
            find_separator(text@, 0) == find_separator(text@, i as int),
        decreases n - i,
    {
        if text.get_char(i) == ':' && text.get_char(i + 1) == '/' && text.get_char(i + 2) == '/' {
            return Some(i);
        }
        i += 1;
    }
    None
}

/// The position of the first `c` in `text` at or after `from`.
pub fn char_position(text: &str, c: char, from: usize) -> (r: Option<usize>)
    ensures
        match r {
            Some(i) => find_char(text@, c, from as int) == Some(i as int) && from <= i < text@.len(),
            None => find_char(text@, c, from as int).is_none(),
        },
{
    let n = text.unicode_len();
    let mut i: usize = from;
    while i < n
        invariant
            from <= i,
            n == text@.len(),
            find_char(text@, c, from as int) == find_char(text@, c, i as int),
        decreases n - i,
    {
        if text.get_char(i) == c {
            return Some(i);
        }
        i += 1;
    }
    None
}

/// The address of a component: which runtime serves it, and what the runtime
/// knows it by.
#[derive(Debug)]
pub struct Component {
    protocol: String,
    host: String,
    path: String,
}

/// The mathematical content of a [`Component`].
pub ghost struct ComponentModel {
    pub protocol: Seq<char>,
    pub host: Seq<char>,
    pub path: Seq<char>,
}

impl View for Component {
    type V = ComponentModel;

    closed spec fn view(&self) -> ComponentModel {
        ComponentModel { protocol: self.protocol@, host: self.host@, path: self.path@ }
    }
}

impl ComponentModel {
    /// The address written out: `protocol://host`, then `/path` where the
    /// path is not empty.
    pub open spec fn url(self) -> Seq<char> {
        let head = self.protocol + seq![':', '/', '/'] + self.host;
        if self.path.len() == 0 {
            head
        } else {
            head + seq!['/'] + self.path
        }
    }
}

/// The parts of the address `url`: the protocol before the first `://`, the
/// host up to the next `/`, the path after that `/`. An address without
/// `://`, or with nothing before it, has no parts.
pub open spec fn parse_component(url: Seq<char>) -> Option<ComponentModel> {
    match find_separator(url, 0) {
        Some(i) => if i == 0 {
            None
        } else {
            let start = i + 3;
            match find_char(url, '/', start) {
                Some(slash) => Some(
                    ComponentModel {
                        protocol: url.subrange(0, i),
                        host: url.subrange(start, slash),
                        path: url.subrange(slash + 1, url.len() as int),
                    },
                ),
                None => Some(
                    ComponentModel {
                        protocol: url.subrange(0, i),
                        host: url.subrange(start, url.len() as int),
                        path: Seq::empty(),
                    },
                ),
            }
        },
        None => None,
    }
}

impl Component {
    /// The component that `protocol` serves as `host` and `path`.
    pub fn new(protocol: &str, host: &str, path: &str) -> (c: Component)
        ensures
            c@ == (ComponentModel { protocol: protocol@, host: host@, path: path@ }),
    {
        Component { protocol: protocol.to_owned(), host: host.to_owned(), path: path.to_owned() }
    }

    /// Reads an address of the form `protocol://host[/path]`.
    pub fn parse(url: &str) -> (r: Option<Component>)
        ensures
            match r {
                Some(c) => parse_component(url@) == Some(c@),
                None => parse_component(url@).is_none(),
            },
    {
        let n = url.unicode_len();
        match separator_position(url) {
            Some(i) => {
                if i == 0 {
                    return None;
                }
                proof {
                    lemma_find_separator(url@, 0);
                }
                let start = i + 3;
                let protocol = url.substring_char(0, i).to_owned();
                match char_position(url, '/', start) {
                    Some(slash) => {
                        let host = url.substring_char(start, slash).to_owned();
                        let path = url.substring_char(slash + 1, n).to_owned();
                        Some(Component { protocol, host, path })
                    },
                    None => {
                        let host = url.substring_char(start, n).to_owned();
                        Some(Component { protocol, host, path: String::new() })
                    },
                }
            },
            None => None,
        }
    }

    /// The protocol, which selects the runtime.
    pub fn protocol(&self) -> (r: &str)
        ensures
            r@ == self@.protocol,
    {
        self.protocol.as_str()
    }

    /// The host, if the address names one.
    pub fn host(&self) -> (r: Option<&str>)
        ensures
            match r {
                Some(h) => h@ == self@.host && self@.host.len() > 0,
                None => self@.host.len() == 0,
            },
    {
        if self.host.as_str().unicode_len() == 0 {
            None
        } else {
            Some(self.host.as_str())
        }
    }

    /// The path, empty where the address has none.
    pub fn path(&self) -> (r: &str)
        ensures
            r@ == self@.path,
    {
        self.path.as_str()
    }

    /// The address written out.
    pub fn url(&self) -> (r: String)
        ensures
            r@ == self@.url(),
    {
        let mut out = self.protocol.clone();
        proof {
            reveal_strlit("://");
            reveal_strlit("/");
        }
        out.append("://");
        out.append(self.host.as_str());
        if self.path.as_str().unicode_len() > 0 {
            out.append("/");
            out.append(self.path.as_str());
        }
        assert(out@ =~= self@.url());
        out
    }
}

impl Clone for Component {
    fn clone(&self) -> (r: Component)
        ensures
            r@ == self@,
    {
        Component {
            protocol: self.protocol.clone(),
            host: self.host.clone(),
            path: self.path.clone(),
        }
    }
}

impl PartialEq for Component {
    fn eq(&self, other: &Self) -> (r: bool) {
        self.protocol == other.protocol && self.host == other.host && self.path == other.path
    }
}

impl vstd::std_specs::cmp::PartialEqSpecImpl for Component {
    open spec fn obeys_eq_spec() -> bool {
        true
    }

    open spec fn eq_spec(&self, other: &Self) -> bool {
        self@ == other@
    }
}

/// What `find_char` returns is the first position of the character, and
/// `None` means that the character does not occur.
pub proof fn lemma_find_char(s: Seq<char>, c: char, from: int)
    requires
        0 <= from,
    ensures
        match find_char(s, c, from) {
            Some(i) => from <= i < s.len() && s[i] == c && forall|j: int|
                from <= j < i ==> s[j] != c,
            None => forall|j: int| from <= j < s.len() ==> s[j] != c,
        },
    decreases s.len() - from,
{
    if from < s.len() && s[from] != c {
        lemma_find_char(s, c, from + 1);
    }
}

/// An address that is written out reads back as the address, where the
/// protocol is not empty and holds no colon and the host holds no slash.
pub proof fn lemma_written_address_reads_back(c: ComponentModel)
    requires
        c.protocol.len() > 0,
        !c.protocol.contains(':'),
        !c.host.contains('/'),
    ensures
        parse_component(c.url()) == Some(c),
{
    let url = c.url();
    let at = c.protocol.len() as int;
    let start = at + 3;
    let host_end = start + c.host.len();
    assert forall|j: int| 0 <= j < at implies !is_separator_at(url, j) by {
        assert(url[j] == c.protocol[j]);
        assert(c.protocol.contains(c.protocol[j]));
    }
    assert(is_separator_at(url, at));
    lemma_find_separator(url, 0);
    assert(find_separator(url, 0) == Some(at));
    assert forall|j: int| start <= j < host_end implies url[j] != '/' by {
        assert(url[j] == c.host[j - start]);
        assert(c.host.contains(c.host[j - start]));
    }
    lemma_find_char(url, '/', start);
    assert(url.subrange(0, at) =~= c.protocol);
    if c.path.len() == 0 {
        assert(url.len() == host_end);
        assert(find_char(url, '/', start).is_none());
        assert(url.subrange(start, url.len() as int) =~= c.host);
        assert(c.path =~= Seq::<char>::empty());
    } else {
        assert(url[host_end] == '/');
        assert(find_char(url, '/', start) == Some(host_end));
        assert(url.subrange(start, host_end) =~= c.host);
        assert(url.subrange(host_end + 1, url.len() as int) =~= c.path);
    }
}

} // verus!
