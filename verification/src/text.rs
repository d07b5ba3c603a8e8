//! Text: trimming, prefixes, and the identifiers that the `ruma` crate knows.
use ruma::events::direct::OwnedDirectUserIdentifier;
use ruma::RoomId;
use vstd::prelude::*;

verus! {

/// The texts held by a sequence of strings.
pub open spec fn texts(strings: Seq<String>) -> Seq<Seq<char>> {
    Seq::new(strings.len(), |i: int| strings[i]@)
}

/// The text held by an optional string.
pub open spec fn optional_text(string: Option<String>) -> Option<Seq<char>> {
    match string {
        Some(text) => Some(text@),
        None => None,
    }
}

/// The characters with Unicode's `White_Space` property.
pub open spec fn is_white_space(c: char) -> bool {
    let code = c as u32;
    ||| 0x9 <= code <= 0xd
    ||| code == 0x20
    ||| code == 0x85
    ||| code == 0xa0
    ||| code == 0x1680
    ||| 0x2000 <= code <= 0x200a
    ||| code == 0x2028
    ||| code == 0x2029
    ||| code == 0x202f
    ||| code == 0x205f
    ||| code == 0x3000
}

/// `s` without the white space at its start.
pub open spec fn trimmed_start(s: Seq<char>) -> Seq<char>
    decreases s.len(),
{
    if s.len() > 0 && is_white_space(s.first()) {
        trimmed_start(s.drop_first())
    } else {
        s
    }
}

/// `s` without the white space at its end.
pub open spec fn trimmed_end(s: Seq<char>) -> Seq<char>
    decreases s.len(),
{
    if s.len() > 0 && is_white_space(s.last()) {
        trimmed_end(s.drop_last())
    } else {
        s
    }
}

/// `s` without the white space at either end.
pub open spec fn trimmed(s: Seq<char>) -> Seq<char> {
    trimmed_end(trimmed_start(s))
}

/// Whether a character has Unicode's `White_Space` property.
fn has_white_space(c: char) -> (has: bool)
    ensures
        has == is_white_space(c),
{
    let code: u32 = c as u32;
    (0x9 <= code && code <= 0xd) || code == 0x20 || code == 0x85 || code == 0xa0 || code == 0x1680
        || (0x2000 <= code && code <= 0x200a) || code == 0x2028 || code == 0x2029 || code == 0x202f
        || code == 0x205f || code == 0x3000
}

proof fn lemma_skips_white_space(s: Seq<char>, start: int)
    requires
        0 <= start <= s.len(),
        forall|i: int| 0 <= i < start ==> is_white_space(#[trigger] s[i]),
        start < s.len() ==> !is_white_space(s[start]),
    ensures
        trimmed_start(s) == s.skip(start),
    decreases s.len(),
{
    if start == 0 {
        assert(s.skip(0) =~= s);
    } else {
        let rest = s.drop_first();
        assert forall|i: int| 0 <= i < start - 1 implies is_white_space(#[trigger] rest[i]) by {
            assert(rest[i] == s[i + 1]);
        }
        assert(s[0] == s.first());
        lemma_skips_white_space(rest, start - 1);
        assert(rest.skip(start - 1) =~= s.skip(start));
    }
}

proof fn lemma_drops_white_space(s: Seq<char>, end: int)
    requires
        0 <= end <= s.len(),
        forall|i: int| end <= i < s.len() ==> is_white_space(#[trigger] s[i]),
        end > 0 ==> !is_white_space(s[end - 1]),
    ensures
        trimmed_end(s) == s.take(end),
    decreases s.len(),
{
    if end == s.len() {
        assert(s.take(end) =~= s);
    } else {
        let rest = s.drop_last();
        assert forall|i: int| end <= i < rest.len() implies is_white_space(#[trigger] rest[i]) by {
            assert(rest[i] == s[i]);
        }
        assert(s[s.len() - 1] == s.last());
        lemma_drops_white_space(rest, end);
        assert(rest.take(end) =~= s.take(end));
    }
}

/// `text` without the white space at either end.
pub fn trim<'a>(text: &'a str) -> (rest: &'a str)
    ensures
        rest@ == trimmed(text@),
{
    let len: usize = text.unicode_len();
    let mut i: usize = 0;
    let mut start: usize = 0;
    let mut end: usize = 0;
    for c in chars: text.chars()
        invariant
            chars.seq() == text@,
            i == chars.index(),
            len == text@.len(),
            start <= end <= i <= len,
            end == 0 ==> forall|j: int| 0 <= j < i ==> is_white_space(#[trigger] text@[j]),
            end > 0 ==> {
                &&& start < end
                &&& !is_white_space(text@[start as int])
                &&& !is_white_space(text@[end - 1])
                &&& forall|j: int| 0 <= j < start ==> is_white_space(#[trigger] text@[j])
                &&& forall|j: int| end <= j < i ==> is_white_space(#[trigger] text@[j])
            },
    {
        if !has_white_space(c) {
            if end == 0 {
                start = i;
            }
            end = i + 1;
        }
        i = i + 1;
    }
    proof {
        if end == 0 {
            lemma_skips_white_space(text@, len as int);
        } else {
            lemma_skips_white_space(text@, start as int);
            let solid = text@.skip(start as int);
            assert forall|j: int| end - start <= j < solid.len() implies is_white_space(
                #[trigger] solid[j],
            ) by {
                assert(solid[j] == text@[j + start]);
            }
            lemma_drops_white_space(solid, end - start);
            assert(solid.take(end - start) =~= text@.subrange(start as int, end as int));
        }
    }
    text.substring_char(start, end)
}

proof fn lemma_trimmed_start_blank(s: Seq<char>)
    ensures
        trimmed_start(s).len() == 0 <==> (forall|i: int|
            0 <= i < s.len() ==> is_white_space(#[trigger] s[i])),
        trimmed_start(s).len() > 0 ==> !is_white_space(trimmed_start(s).first()),
    decreases s.len(),
{
    if s.len() > 0 && is_white_space(s.first()) {
        let rest = s.drop_first();
        lemma_trimmed_start_blank(rest);
        if trimmed_start(rest).len() == 0 {
            assert forall|i: int| 0 <= i < s.len() implies is_white_space(#[trigger] s[i]) by {
                if i > 0 {
                    assert(rest[i - 1] == s[i]);
                }
            }
        } else {
            let j = choose|j: int| 0 <= j < rest.len() && !is_white_space(#[trigger] rest[j]);
            assert(s[j + 1] == rest[j]);
        }
    } else if s.len() > 0 {
        assert(s[0] == s.first());
    }
}

proof fn lemma_trimmed_end_keeps_solid(s: Seq<char>)
    requires
        s.len() > 0,
        !is_white_space(s.first()),
    ensures
        trimmed_end(s).len() > 0,
    decreases s.len(),
{
    if is_white_space(s.last()) {
        assert(s.drop_last().first() == s.first());
        lemma_trimmed_end_keeps_solid(s.drop_last());
    }
}

proof fn lemma_trimmed_start_bound(s: Seq<char>) -> (i: int)
    ensures
        0 <= i <= s.len(),
        trimmed_start(s) == s.skip(i),
        forall|k: int| 0 <= k < i ==> is_white_space(#[trigger] s[k]),
        i < s.len() ==> !is_white_space(s[i]),
    decreases s.len(),
{
    if s.len() > 0 && is_white_space(s.first()) {
        let rest = s.drop_first();
        let i = lemma_trimmed_start_bound(rest);
        assert(rest.skip(i) =~= s.skip(i + 1));
        assert forall|k: int| 0 <= k < i + 1 implies is_white_space(#[trigger] s[k]) by {
            if k > 0 {
                assert(rest[k - 1] == s[k]);
            }
        }
        i + 1
    } else {
        assert(s.skip(0) =~= s);
        0
    }
}

proof fn lemma_trimmed_end_bound(s: Seq<char>) -> (j: int)
    ensures
        0 <= j <= s.len(),
        trimmed_end(s) == s.take(j),
        forall|k: int| j <= k < s.len() ==> is_white_space(#[trigger] s[k]),
        j > 0 ==> !is_white_space(s[j - 1]),
    decreases s.len(),
{
    if s.len() > 0 && is_white_space(s.last()) {
        let rest = s.drop_last();
        let j = lemma_trimmed_end_bound(rest);
        assert(rest.take(j) =~= s.take(j));
        assert forall|k: int| j <= k < s.len() implies is_white_space(#[trigger] s[k]) by {
            if k < s.len() - 1 {
                assert(rest[k] == s[k]);
            }
        }
        j
    } else {
        assert(s.take(s.len() as int) =~= s);
        s.len() as int
    }
}

/// Trimming leaves the part from `i` to `j`, and all around it is white space.
pub proof fn lemma_trimmed_bounds(s: Seq<char>) -> (bounds: (int, int))
    ensures
        ({
            let (i, j) = bounds;
            &&& 0 <= i <= j <= s.len()
            &&& trimmed(s) == s.subrange(i, j)
            &&& forall|k: int| 0 <= k < i ==> is_white_space(#[trigger] s[k])
            &&& forall|k: int| j <= k < s.len() ==> is_white_space(#[trigger] s[k])
            &&& i < j ==> !is_white_space(s[i]) && !is_white_space(s[j - 1])
        }),
{
    let i = lemma_trimmed_start_bound(s);
    let solid = s.skip(i);
    let j = lemma_trimmed_end_bound(solid);
    assert(solid.take(j) =~= s.subrange(i, i + j));
    assert forall|k: int| i + j <= k < s.len() implies is_white_space(#[trigger] s[k]) by {
        assert(solid[k - i] == s[k]);
    }
    (i, i + j)
}

/// A text trims to nothing exactly when it holds nothing but white space.
pub proof fn law_trims_to_nothing_iff_blank(s: Seq<char>)
    ensures
        trimmed(s).len() == 0 <==> (forall|i: int|
            0 <= i < s.len() ==> is_white_space(#[trigger] s[i])),
{
    lemma_trimmed_start_blank(s);
    if trimmed_start(s).len() > 0 {
        lemma_trimmed_end_keeps_solid(trimmed_start(s));
    }
}

/// The text behind `prefix`, where `value` starts with it.
pub fn strip_prefix<'a>(value: &'a str, prefix: &str) -> (rest: Option<&'a str>)
    ensures
        match rest {
            Some(text) => value@ == prefix@ + text@,
            None => !prefix@.is_prefix_of(value@),
        },
{
    let n: usize = prefix.unicode_len();
    let len: usize = value.unicode_len();
    if len < n {
        return None;
    }
    let mut i: usize = 0;
    while i < n
        invariant
            i <= n,
            n == prefix@.len(),
            len == value@.len(),
            n <= len,
            forall|j: int| 0 <= j < i ==> value@[j] == prefix@[j],
        decreases n - i,
    {
        if value.get_char(i) != prefix.get_char(i) {
            assert(value@.take(n as int)[i as int] != prefix@[i as int]);
            return None;
        }
        i = i + 1;
    }
    let text = value.substring_char(n, len);
    assert(value@ =~= prefix@ + text@);
    Some(text)
}

/// Whether `ruma` reads `text` as a Matrix user ID.
pub uninterp spec fn is_user_id(text: Seq<char>) -> bool;

/// `OwnedDirectUserIdentifier::as_user_id` gives the identifier of an `m.direct` entry as a user
/// ID where it is one, and leaves its text as it is. Which texts are user IDs depends on the text
/// alone; that grammar is named `is_user_id` and not spelled out.
#[verifier::external_body]
pub(crate) fn as_user_id(peer: &str) -> (user_id: Option<String>)
    ensures
        match user_id {
            Some(text) => is_user_id(peer@) && text@ == peer@,
            None => !is_user_id(peer@),
        },
{
    let identifier = OwnedDirectUserIdentifier::from(peer);
    identifier.as_user_id().map(|user_id| user_id.as_str().to_owned())
}

/// Whether `ruma` reads `text` as the name of a Matrix server.
pub uninterp spec fn is_server_name(text: Seq<char>) -> bool;

/// `ServerName::parse` accepts the names of Matrix servers and no other text. Which texts these are
/// depends on the text alone; that grammar is named `is_server_name` and not spelled out.
#[verifier::external_body]
fn parses_as_server_name(text: &str) -> (parses: bool)
    ensures
        parses == is_server_name(text@),
{
    ruma::ServerName::parse(text).is_ok()
}

/// The name of a Matrix server.
#[derive(Debug, PartialEq, Eq)]
pub struct ServerName {
    name: String,
}

impl View for ServerName {
    type V = Seq<char>;

    closed spec fn view(&self) -> Seq<char> {
        self.name@
    }
}

impl ServerName {
    #[verifier::type_invariant]
    spec fn inv(self) -> bool {
        is_server_name(self.name@)
    }

    /// The server of the given name, or nothing if that is no server name.
    pub fn parse(name: &str) -> (server: Option<ServerName>)
        ensures
            match server {
                Some(parsed) => is_server_name(name@) && parsed@ == name@,
                None => !is_server_name(name@),
            },
    {
        if parses_as_server_name(name) {
            Some(ServerName { name: name.to_owned() })
        } else {
            None
        }
    }

    /// The name.
    pub fn as_str(&self) -> (name: &str)
        ensures
            name@ == self@,
            is_server_name(name@),
    {
        proof {
            use_type_invariant(self);
        }
        self.name.as_str()
    }
}

pub open spec fn is_ascii_alphanumeric(c: char) -> bool {
    ||| '0' <= c <= '9'
    ||| 'A' <= c <= 'Z'
    ||| 'a' <= c <= 'z'
}

/// A room ID of the form `!localpart:server`, with a local part of 18 letters and digits.
pub open spec fn is_generated_room_id(room_id: Seq<char>, server: Seq<char>) -> bool {
    &&& room_id.len() == 20 + server.len()
    &&& room_id[0] == '!'
    &&& forall|i: int| 1 <= i < 19 ==> is_ascii_alphanumeric(#[trigger] room_id[i])
    &&& room_id[19] == ':'
    &&& room_id.skip(20) == server
}

/// `RoomId::new_v1` makes a room ID for the given server with a random local part of 18 ASCII
/// letters and digits. The server name is read by `ServerName::parse`, whose grammar is named
/// `is_server_name`. Nothing is said of which local part comes out.
#[verifier::external_body]
fn random_room_id(server_name: &str) -> (room_id: Option<String>)
    ensures
        match room_id {
            Some(text) => is_server_name(server_name@) && is_generated_room_id(
                text@,
                server_name@,
            ),
            None => !is_server_name(server_name@),
        },
{
    let server = ruma::ServerName::parse(server_name).ok()?;
    Some(RoomId::new_v1(&server).as_str().to_owned())
}

/// A room ID on the given server, with a random local part.
pub fn new_room_id(server: &ServerName) -> (room_id: String)
    ensures
        is_generated_room_id(room_id@, server@),
{
    match random_room_id(server.as_str()) {
        Some(room_id) => room_id,
        None => vstd::pervasive::unreached(),
    }
}

} // verus!
