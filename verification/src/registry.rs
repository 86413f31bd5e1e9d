//! The names of sessions, and the socket files that stand for them.
//!
//! The socket of the session `work` is `/tmp/dtch_work.sock`.

use crate::text::{decode, pad};
use vstd::prelude::*;
use vstd::string::*;
use vstd::utf8::*;

verus! {

/// The permission bits of a session socket: its owner may read and write.
pub const SOCKET_MODE: u32 = 0o600;

/// How wide the first column of the session table is.
pub const NAME_WIDTH: usize = 24;

/// The characters that a session name is made of.
pub open spec fn is_name_char(c: char) -> bool {
    ||| 'a' <= c <= 'z'
    ||| 'A' <= c <= 'Z'
    ||| '0' <= c <= '9'
    ||| c == '_'
    ||| c == '-'
    ||| c == '.'
}

/// Every character of `name` is one that a session name is made of.
pub open spec fn has_name_chars(name: Seq<char>) -> bool {
    forall|i: int| 0 <= i < name.len() ==> is_name_char(#[trigger] name[i])
}

/// A session can have this name.
pub open spec fn is_session_name(name: Seq<char>) -> bool {
    name.len() > 0 && has_name_chars(name)
}

/// The name of the socket file of a session.
pub open spec fn socket_file(name: Seq<char>) -> Seq<char> {
    "dtch_"@ + name + ".sock"@
}

/// The path of the socket of a session.
pub open spec fn socket_location(name: Seq<char>) -> Seq<char> {
    "/tmp/dtch_"@ + name + ".sock"@
}

/// The session that a file with this name stands for, if it does for one.
pub open spec fn named_session(file_name: Seq<u8>) -> Option<Seq<char>> {
    let text = decode_utf8(file_name);
    let name = text.subrange(5, text.len() - 5);
    if valid_utf8(file_name) && text.len() > 10 && text == socket_file(name) {
        Some(name)
    } else {
        None
    }
}

/// Why a session cannot have some name.
#[derive(Clone, Copy, Debug, PartialEq, Eq, Structural)]
pub enum NameError {
    /// The name is empty.
    Empty,
    /// A character of the name is not allowed.
    InvalidCharacter,
}

impl NameError {
    /// The words that tell a person what was wrong.
    pub open spec fn text(self) -> Seq<char> {
        match self {
            NameError::Empty => "session name cannot be empty"@,
            NameError::InvalidCharacter =>
                "session name may only contain letters, numbers, '.', '_', and '-'"@,
        }
    }

    /// The words that tell a person what was wrong.
    pub fn message(&self) -> (message: String)
        ensures
            message@ == self.text(),
    {
        match self {
            NameError::Empty => "session name cannot be empty".to_owned(),
            NameError::InvalidCharacter =>
                "session name may only contain letters, numbers, '.', '_', and '-'".to_owned(),
        }
    }
}

/// The outcome of asking for the socket of a session, by its name.
pub open spec fn name_error(name: Seq<char>) -> Option<NameError> {
    if name.len() == 0 {
        Some(NameError::Empty)
    } else if !has_name_chars(name) {
        Some(NameError::InvalidCharacter)
    } else {
        None
    }
}

/// Validates a session name and maps it to the path of its Unix socket.
pub fn socket_path(name: &str) -> (path: Result<String, NameError>)
    ensures
        path is Ok <==> is_session_name(name@),
        path matches Ok(path) ==> path@ == socket_location(name@),
        path matches Err(error) ==> name_error(name@) == Some(error),
{
    if name.is_empty() {
        return Err(NameError::Empty);
    }
    if !name.is_ascii() {
        proof {
            if has_name_chars(name@) {
                assert forall|i: int| 0 <= i < name@.len() implies '\0' <= #[trigger] name@[i]
                    <= '\u{7f}' by {
                    assert(is_name_char(name@[i]));
                }
            }
        }
        return Err(NameError::InvalidCharacter);
    }
    let bytes: &[u8] = name.as_bytes();
    proof {
        is_ascii_chars_encode_utf8(name@);
    }
    let mut i: usize = 0;
    while i < bytes.len()
        invariant
            i <= bytes@.len(),
            bytes@.len() == name@.len(),
            is_ascii_chars(name@),
            forall|j: int| 0 <= j < bytes@.len() ==> name@[j] as u8 == #[trigger] bytes@[j],
            forall|j: int| 0 <= j < i ==> is_name_char(#[trigger] name@[j]),
        decreases bytes@.len() - i,
    {
        let byte: u8 = bytes[i];
        assert(name@[i as int] as u8 == byte);
        if !is_name_byte(byte) {
            assert(!is_name_char(name@[i as int]));
            return Err(NameError::InvalidCharacter);
        }
        assert(is_name_char(name@[i as int]));
        i = i + 1;
    }
    let mut path: String = "/tmp/dtch_".to_owned();
    path.append(name);
    path.append(".sock");
    Ok(path)
}

/// Tells whether a session name may hold this ASCII character.
fn is_name_byte(byte: u8) -> (allowed: bool)
    ensures
        byte < 128 ==> allowed == is_name_char(byte as char),
{
    let letter: bool = (0x61 <= byte && byte <= 0x7a) || (0x41 <= byte && byte <= 0x5a);
    let number: bool = 0x30 <= byte && byte <= 0x39;
    let mark: bool = byte == 0x5f || byte == 0x2d || byte == 0x2e;
    letter || number || mark
}

/// Extracts a session name from a socket file name that follows the convention.
pub fn session_name_from_file_name(file_name: &[u8]) -> (name: Option<String>)
    ensures
        name is Some <==> named_session(file_name@) is Some,
        name matches Some(name) ==> named_session(file_name@) == Some(name@),
{
    let text: &str = match decode(file_name) {
        Some(text) => text,
        None => {
            return None;
        },
    };
    let len: usize = text.unicode_len();
    if len <= 10 {
        return None;
    }
    let prefix: &str = text.substring_char(0, 5);
    let name: &str = text.substring_char(5, len - 5);
    let suffix: &str = text.substring_char(len - 5, len);
    proof {
        reveal_strlit("dtch_");
        reveal_strlit(".sock");
        assert(text@ =~= prefix@ + name@ + suffix@);
        assert(text@.subrange(0, 5) =~= prefix@);
        assert(text@.subrange(len - 5, len as int) =~= suffix@);
        if text@ == socket_file(name@) {
            assert(socket_file(name@).subrange(0, 5) =~= "dtch_"@);
            assert(socket_file(name@).subrange(len - 5, len as int) =~= ".sock"@);
        }
    }
    if same_text(prefix, "dtch_") && same_text(suffix, ".sock") {
        Some(name.to_owned())
    } else {
        None
    }
}

/// Tells whether two texts are equal.
fn same_text(a: &str, b: &str) -> (same: bool)
    ensures
        same == (a@ == b@),
{
    let mut i: usize = 0;
    let len: usize = a.unicode_len();
    if len != b.unicode_len() {
        return false;
    }
    while i < len
        invariant
            i <= len,
            len == a@.len(),
            len == b@.len(),
            forall|j: int| 0 <= j < i ==> a@[j] == b@[j],
        decreases len - i,
    {
        if a.get_char(i) != b.get_char(i) {
            return false;
        }
        i = i + 1;
    }
    assert(a@ =~= b@);
    true
}

/// What a directory tells of one of its entries.
#[derive(Debug, PartialEq, Eq)]
pub struct DirectoryEntry {
    /// The bytes of its name.
    pub file_name: Vec<u8>,
    /// Whether it is a socket.
    pub is_socket: bool,
    /// Its path, as a person reads it.
    pub path: String,
}

/// A session that was found in the socket directory.
#[derive(Debug, PartialEq, Eq)]
pub struct Session {
    /// Its name.
    pub name: String,
    /// The path of its socket.
    pub socket: String,
}

/// A session as plain text.
#[verifier::ext_equal]
pub struct SessionText {
    pub name: Seq<char>,
    pub socket: Seq<char>,
}

impl View for Session {
    type V = SessionText;

    open spec fn view(&self) -> SessionText {
        SessionText { name: self.name@, socket: self.socket@ }
    }
}

/// The sessions as plain text.
pub open spec fn session_texts(sessions: Seq<Session>) -> Seq<SessionText> {
    sessions.map_values(|session: Session| session@)
}

/// A directory entry stands for a session: it is a socket with a fitting name.
pub open spec fn is_session_entry(entry: DirectoryEntry) -> bool {
    entry.is_socket && named_session(entry.file_name@) is Some
}

/// The sessions that directory entries stand for, in the order of the entries.
pub open spec fn found_sessions(entries: Seq<DirectoryEntry>) -> Seq<SessionText>
    decreases entries.len(),
{
    if entries.len() == 0 {
        Seq::empty()
    } else {
        let found = found_sessions(entries.drop_last());
        let entry = entries.last();
        if is_session_entry(entry) {
            found.push(
                SessionText {
                    name: named_session(entry.file_name@)->0,
                    socket: entry.path@,
                },
            )
        } else {
            found
        }
    }
}

/// `a` stands before `b` in a dictionary of byte strings, or is `b`.
pub open spec fn bytes_ordered(a: Seq<u8>, b: Seq<u8>) -> bool
    decreases a.len(),
{
    if a.len() == 0 {
        true
    } else if b.len() == 0 {
        false
    } else if a[0] == b[0] {
        bytes_ordered(a.drop_first(), b.drop_first())
    } else {
        a[0] < b[0]
    }
}

/// `a` stands before `b` in the order of session names, or is `b`.
pub open spec fn names_ordered(a: Seq<char>, b: Seq<char>) -> bool {
    bytes_ordered(encode_utf8(a), encode_utf8(b))
}

/// The sessions stand in the order of their names.
pub open spec fn in_name_order(sessions: Seq<SessionText>) -> bool {
    forall|i: int, j: int|
        0 <= i <= j < sessions.len() ==> names_ordered(
            #[trigger] sessions[i].name,
            #[trigger] sessions[j].name,
        )
}

/// The sessions with some name, in the order in which they stand.
pub open spec fn with_name(sessions: Seq<SessionText>, name: Seq<char>) -> Seq<SessionText>
    decreases sessions.len(),
{
    if sessions.len() == 0 {
        Seq::empty()
    } else if sessions.last().name == name {
        with_name(sessions.drop_last(), name).push(sessions.last())
    } else {
        with_name(sessions.drop_last(), name)
    }
}

/// `sorted` holds the sessions of `sessions` in the order of their names; those
/// with the same name keep their order.
pub open spec fn is_sorted_form(sessions: Seq<SessionText>, sorted: Seq<SessionText>) -> bool {
    &&& in_name_order(sorted)
    &&& sorted.len() == sessions.len()
    &&& forall|name: Seq<char>| #[trigger] with_name(sorted, name) == with_name(sessions, name)
}

/// Tells whether `a` stands before `b` in the order of session names, or is `b`.
fn is_ordered(a: &str, b: &str) -> (ordered: bool)
    ensures
        ordered == names_ordered(a@, b@),
{
    let left: &[u8] = a.as_bytes();
    let right: &[u8] = b.as_bytes();
    let mut i: usize = 0;
    proof {
        assert(left@.skip(0) =~= left@);
        assert(right@.skip(0) =~= right@);
    }
    while i < left.len()
        invariant
            left@ == encode_utf8(a@),
            right@ == encode_utf8(b@),
            i <= left@.len(),
            i <= right@.len(),
            bytes_ordered(left@.skip(i as int), right@.skip(i as int)) == names_ordered(a@, b@),
        decreases left@.len() - i,
    {
        if i >= right.len() {
            return false;
        }
        if left[i] != right[i] {
            return left[i] < right[i];
        }
        proof {
            assert(left@.skip(i as int).drop_first() =~= left@.skip(i + 1));
            assert(right@.skip(i as int).drop_first() =~= right@.skip(i + 1));
        }
        i = i + 1;
    }
    true
}

/// Picks the sessions out of the entries of the socket directory and puts them
/// in the order of their names.
pub fn list_sessions(entries: &Vec<DirectoryEntry>) -> (sessions: Vec<Session>)
    ensures
        is_sorted_form(found_sessions(entries@), session_texts(sessions@)),
{
    let mut sessions: Vec<Session> = Vec::new();
    let mut i: usize = 0;
    proof {
        assert(entries@.take(0) =~= Seq::<DirectoryEntry>::empty());
        assert(session_texts(sessions@) =~= Seq::<SessionText>::empty());
    }
    while i < entries.len()
        invariant
            i <= entries@.len(),
            is_sorted_form(found_sessions(entries@.take(i as int)), session_texts(sessions@)),
        decreases entries@.len() - i,
    {
        let entry: &DirectoryEntry = &entries[i];
        proof {
            assert(entries@.take(i + 1).drop_last() =~= entries@.take(i as int));
            assert(entries@.take(i + 1).last() == *entry);
        }
        i = i + 1;
        if entry.is_socket {
            if let Some(name) = session_name_from_file_name(entry.file_name.as_slice()) {
                let session: Session = Session { name, socket: entry.path.clone() };
                insert_session(
                    &mut sessions,
                    session,
                    Ghost(found_sessions(entries@.take(i - 1))),
                );
            }
        }
    }
    assert(entries@.take(entries@.len() as int) =~= entries@);
    sessions
}

/// Puts a session behind those that do not come after it.
fn insert_session(
    sessions: &mut Vec<Session>,
    session: Session,
    Ghost(found): Ghost<Seq<SessionText>>,
)
    requires
        is_sorted_form(found, session_texts(old(sessions)@)),
    ensures
        is_sorted_form(found.push(session@), session_texts(final(sessions)@)),
{
    let ghost before: Seq<SessionText> = session_texts(sessions@);
    let mut at: usize = sessions.len();
    while at > 0 && !is_ordered(sessions[at - 1].name.as_str(), session.name.as_str())
        invariant
            at <= sessions@.len(),
            before == session_texts(sessions@),
            forall|j: int|
                at <= j < sessions@.len() ==> !names_ordered(#[trigger] before[j].name, session@.name),
        decreases at,
    {
        at = at - 1;
        assert(before[at as int].name == sessions@[at as int].name@);
    }
    let ghost text: SessionText = session@;
    proof {
        if at > 0 {
            assert(before[at - 1].name == sessions@[at - 1].name@);
        }
        lemma_insert_sorted(found, before, at as int, text);
    }
    sessions.insert(at, session);
    assert(session_texts(sessions@) =~= before.insert(at as int, text));
}

proof fn lemma_bytes_order_is_total(a: Seq<u8>, b: Seq<u8>)
    ensures
        bytes_ordered(a, a),
        bytes_ordered(a, b) || bytes_ordered(b, a),
        bytes_ordered(a, b) && bytes_ordered(b, a) ==> a == b,
    decreases a.len(),
{
    if a.len() > 0 {
        lemma_bytes_order_is_total(a.drop_first(), a.drop_first());
        if b.len() > 0 {
            lemma_bytes_order_is_total(a.drop_first(), b.drop_first());
            if a[0] == b[0] && a.drop_first() == b.drop_first() {
                assert(a =~= seq![a[0]] + a.drop_first());
                assert(b =~= seq![b[0]] + b.drop_first());
            }
        }
    } else if b.len() == 0 {
        assert(a =~= b);
    }
}

proof fn lemma_bytes_order_is_transitive(a: Seq<u8>, b: Seq<u8>, c: Seq<u8>)
    requires
        bytes_ordered(a, b),
        bytes_ordered(b, c),
    ensures
        bytes_ordered(a, c),
    decreases a.len(),
{
    if a.len() > 0 && a[0] == b[0] && b[0] == c[0] {
        lemma_bytes_order_is_transitive(a.drop_first(), b.drop_first(), c.drop_first());
    }
}

/// The order of session names is a total order: of two names one stands before
/// the other, and only equal names stand before each other both ways.
pub proof fn law_name_order_is_total(a: Seq<char>, b: Seq<char>)
    ensures
        names_ordered(a, a),
        names_ordered(a, b) || names_ordered(b, a),
        names_ordered(a, b) && names_ordered(b, a) ==> a == b,
{
    lemma_bytes_order_is_total(encode_utf8(a), encode_utf8(b));
    encode_utf8_decode_utf8(a);
    encode_utf8_decode_utf8(b);
}

/// The order of session names is transitive.
pub proof fn law_name_order_is_transitive(a: Seq<char>, b: Seq<char>, c: Seq<char>)
    requires
        names_ordered(a, b),
        names_ordered(b, c),
    ensures
        names_ordered(a, c),
{
    lemma_bytes_order_is_transitive(encode_utf8(a), encode_utf8(b), encode_utf8(c));
}

proof fn lemma_with_name_add(a: Seq<SessionText>, b: Seq<SessionText>, name: Seq<char>)
    ensures
        with_name(a + b, name) == with_name(a, name) + with_name(b, name),
    decreases b.len(),
{
    if b.len() == 0 {
        assert(a + b =~= a);
        assert(with_name(a, name) + with_name(b, name) =~= with_name(a, name));
    } else {
        lemma_with_name_add(a, b.drop_last(), name);
        assert((a + b).drop_last() =~= a + b.drop_last());
        assert(with_name(a + b, name) =~= with_name(a, name) + with_name(b, name));
    }
}

proof fn lemma_with_name_absent(sessions: Seq<SessionText>, name: Seq<char>)
    requires
        forall|i: int| 0 <= i < sessions.len() ==> #[trigger] sessions[i].name != name,
    ensures
        with_name(sessions, name) == Seq::<SessionText>::empty(),
    decreases sessions.len(),
{
    if sessions.len() > 0 {
        assert(sessions[sessions.len() - 1].name != name);
        assert forall|i: int| 0 <= i < sessions.drop_last().len() implies
            #[trigger] sessions.drop_last()[i].name != name by {
            assert(sessions[i].name != name);
        }
        lemma_with_name_absent(sessions.drop_last(), name);
    }
}

proof fn lemma_insert_sorted(
    found: Seq<SessionText>,
    sorted: Seq<SessionText>,
    at: int,
    session: SessionText,
)
    requires
        is_sorted_form(found, sorted),
        0 <= at <= sorted.len(),
        at > 0 ==> names_ordered(sorted[at - 1].name, session.name),
        forall|j: int|
            at <= j < sorted.len() ==> !names_ordered(#[trigger] sorted[j].name, session.name),
    ensures
        is_sorted_form(found.push(session), sorted.insert(at, session)),
{
    let result: Seq<SessionText> = sorted.insert(at, session);
    assert forall|i: int, j: int| 0 <= i <= j < result.len() implies names_ordered(
        #[trigger] result[i].name,
        #[trigger] result[j].name,
    ) by {
        let from: int = if i < at { i } else { i - 1 };
        let to: int = if j < at { j } else { j - 1 };
        if i == at && j == at {
            law_name_order_is_total(session.name, session.name);
        } else if i == at {
            assert(sorted[to].name == result[j].name);
            law_name_order_is_total(session.name, sorted[to].name);
        } else if j == at {
            assert(sorted[from].name == result[i].name);
            assert(names_ordered(sorted[from].name, sorted[at - 1].name));
            law_name_order_is_transitive(sorted[from].name, sorted[at - 1].name, session.name);
        } else {
            assert(names_ordered(sorted[from].name, sorted[to].name));
        }
    }
    let before: Seq<SessionText> = sorted.take(at);
    let after: Seq<SessionText> = sorted.skip(at);
    let one: Seq<SessionText> = seq![session];
    assert(sorted =~= before + after);
    assert(result =~= before + one + after);
    assert(found.push(session) =~= found + one);
    assert forall|name: Seq<char>| #[trigger] with_name(result, name) == with_name(
        found.push(session),
        name,
    ) by {
        lemma_with_name_add(before + one, after, name);
        lemma_with_name_add(before, one, name);
        lemma_with_name_add(before, after, name);
        lemma_with_name_add(found, one, name);
        assert(with_name(sorted, name) == with_name(found, name));
        if name == session.name {
            assert forall|i: int| 0 <= i < after.len() implies #[trigger] after[i].name
                != name by {
                assert(after[i] == sorted[at + i]);
                law_name_order_is_total(name, name);
            }
            lemma_with_name_absent(after, name);
            assert(with_name(result, name) =~= with_name(found.push(session), name));
        } else {
            lemma_with_name_absent(one, name);
            assert(with_name(result, name) =~= with_name(found.push(session), name));
        }
    }
}

proof fn lemma_with_name_contains(sessions: Seq<SessionText>, session: SessionText)
    ensures
        with_name(sessions, session.name).contains(session) <==> sessions.contains(session),
    decreases sessions.len(),
{
    if sessions.len() > 0 {
        let head: Seq<SessionText> = sessions.drop_last();
        let picked: Seq<SessionText> = with_name(head, session.name);
        lemma_with_name_contains(head, session);
        assert(sessions =~= head.push(sessions.last()));
        assert(head.push(sessions.last()).contains(session) <==> head.contains(session)
            || sessions.last() == session) by {
            broadcast use vstd::seq_lib::group_seq_properties;

        }
        assert(picked.push(sessions.last()).contains(session) <==> picked.contains(session)
            || sessions.last() == session) by {
            broadcast use vstd::seq_lib::group_seq_properties;

        }
    }
}

proof fn lemma_last_name_is_greatest(
    sessions: Seq<SessionText>,
    a: Seq<SessionText>,
    b: Seq<SessionText>,
)
    requires
        is_sorted_form(sessions, a),
        is_sorted_form(sessions, b),
        a.len() > 0,
    ensures
        names_ordered(a.last().name, b.last().name),
{
    let last: SessionText = a.last();
    assert(a.contains(last)) by {
        assert(a[a.len() - 1] == last);
    }
    lemma_with_name_contains(a, last);
    lemma_with_name_contains(b, last);
    assert(with_name(a, last.name) == with_name(sessions, last.name));
    assert(with_name(b, last.name) == with_name(sessions, last.name));
    let i: int = choose|i: int| 0 <= i < b.len() && b[i] == last;
    assert(names_ordered(b[i].name, b[b.len() - 1].name));
}

/// The listing has one order only: what `is_sorted_form` says leaves no choice.
pub proof fn law_sorted_form_is_unique(
    sessions: Seq<SessionText>,
    a: Seq<SessionText>,
    b: Seq<SessionText>,
)
    requires
        is_sorted_form(sessions, a),
        is_sorted_form(sessions, b),
    ensures
        a == b,
    decreases a.len(),
{
    if a.len() == 0 {
        assert(a =~= b);
    } else {
        lemma_last_name_is_greatest(sessions, a, b);
        lemma_last_name_is_greatest(sessions, b, a);
        law_name_order_is_total(a.last().name, b.last().name);
        let name: Seq<char> = a.last().name;
        assert(with_name(a, name) == with_name(sessions, name));
        assert(with_name(b, name) == with_name(sessions, name));
        assert(with_name(a, name).last() == a.last());
        assert(with_name(b, name).last() == b.last());
        let head: Seq<SessionText> = a.drop_last();
        let other: Seq<SessionText> = b.drop_last();
        assert forall|n: Seq<char>| #[trigger] with_name(other, n) == with_name(head, n) by {
            assert(with_name(a, n) == with_name(sessions, n));
            assert(with_name(b, n) == with_name(sessions, n));
            if n == name {
                assert(with_name(head, n) =~= with_name(a, n).drop_last());
                assert(with_name(other, n) =~= with_name(b, n).drop_last());
            }
        }
        assert(in_name_order(head)) by {
            assert forall|i: int, j: int| 0 <= i <= j < head.len() implies names_ordered(
                #[trigger] head[i].name,
                #[trigger] head[j].name,
            ) by {
                assert(names_ordered(a[i].name, a[j].name));
            }
        }
        assert(in_name_order(other)) by {
            assert forall|i: int, j: int| 0 <= i <= j < other.len() implies names_ordered(
                #[trigger] other[i].name,
                #[trigger] other[j].name,
            ) by {
                assert(names_ordered(b[i].name, b[j].name));
            }
        }
        law_sorted_form_is_unique(head, head, other);
        assert(a =~= head.push(a.last()));
        assert(b =~= other.push(b.last()));
    }
}

/// The listing holds each session that was found, and no other.
pub proof fn law_sorting_keeps_every_session(
    sessions: Seq<SessionText>,
    sorted: Seq<SessionText>,
    session: SessionText,
)
    requires
        is_sorted_form(sessions, sorted),
    ensures
        sorted.contains(session) <==> sessions.contains(session),
{
    assert(with_name(sorted, session.name) == with_name(sessions, session.name));
    lemma_with_name_contains(sorted, session);
    lemma_with_name_contains(sessions, session);
}

/// One line of the session table.
pub open spec fn table_row(name: Seq<char>, socket: Seq<char>) -> Seq<char> {
    crate::text::padded(name, NAME_WIDTH as nat) + " "@ + socket
}

/// The lines that show the sessions to a person.
pub open spec fn session_table(sessions: Seq<SessionText>) -> Seq<Seq<char>> {
    if sessions.len() == 0 {
        seq!["no active sessions"@]
    } else {
        seq![table_row("NAME"@, "SOCKET"@)] + Seq::new(
            sessions.len(),
            |i: int| table_row(sessions[i].name, sessions[i].socket),
        )
    }
}

/// Writes one line of the session table.
fn write_row(name: &str, socket: &str) -> (row: String)
    ensures
        row@ == table_row(name@, socket@),
{
    let mut row: String = pad(name, NAME_WIDTH);
    row.append(" ");
    row.append(socket);
    row
}

/// Writes the lines that show the sessions to a person.
pub fn render_sessions(sessions: &Vec<Session>) -> (lines: Vec<String>)
    ensures
        crate::text::texts(lines@) == session_table(session_texts(sessions@)),
{
    let mut lines: Vec<String> = Vec::new();
    if sessions.len() == 0 {
        lines.push("no active sessions".to_owned());
        assert(crate::text::texts(lines@) =~= session_table(session_texts(sessions@)));
        return lines;
    }
    lines.push(write_row("NAME", "SOCKET"));
    let mut i: usize = 0;
    while i < sessions.len()
        invariant
            0 < sessions@.len(),
            i <= sessions@.len(),
            crate::text::texts(lines@) == session_table(session_texts(sessions@)).take(i + 1),
        decreases sessions@.len() - i,
    {
        let row: String = write_row(sessions[i].name.as_str(), sessions[i].socket.as_str());
        proof {
            let table: Seq<Seq<char>> = session_table(session_texts(sessions@));
            assert(table[i + 1] == row@);
            assert(table.take(i + 2) =~= table.take(i + 1).push(row@));
            assert(crate::text::texts(lines@.push(row)) =~= crate::text::texts(lines@).push(row@));
        }
        lines.push(row);
        i = i + 1;
    }
    assert(crate::text::texts(lines@) =~= session_table(session_texts(sessions@)));
    lines
}

/// Different sessions have different sockets.
pub proof fn law_sockets_are_distinct(a: Seq<char>, b: Seq<char>)
    requires
        socket_location(a) == socket_location(b),
    ensures
        a == b,
{
    reveal_strlit("/tmp/dtch_");
    reveal_strlit(".sock");
    assert(a =~= socket_location(a).subrange(10, socket_location(a).len() - 5));
    assert(b =~= socket_location(b).subrange(10, socket_location(b).len() - 5));
}

/// The socket of a session lies in `/tmp` itself: its file name leads into no
/// other directory.
pub proof fn law_socket_lies_in_tmp(name: Seq<char>)
    requires
        is_session_name(name),
    ensures
        socket_location(name) == "/tmp/"@ + socket_file(name),
        !socket_file(name).contains('/'),
        !socket_file(name).contains('\0'),
{
    reveal_strlit("/tmp/dtch_");
    reveal_strlit("/tmp/");
    reveal_strlit("dtch_");
    reveal_strlit(".sock");
    let file: Seq<char> = socket_file(name);
    assert(socket_location(name) =~= "/tmp/"@ + file);
    assert forall|i: int| 0 <= i < file.len() implies file[i] != '/' && file[i] != '\0' by {
        if 5 <= i < 5 + name.len() {
            assert(is_name_char(name[i - 5]));
        }
    }
}

/// The listing finds every session: the file name of a session's socket leads
/// back to the session's name.
pub proof fn law_socket_file_names_its_session(name: Seq<char>)
    requires
        name.len() > 0,
    ensures
        named_session(encode_utf8(socket_file(name))) == Some(name),
{
    reveal_strlit("dtch_");
    reveal_strlit(".sock");
    let file: Seq<char> = socket_file(name);
    encode_utf8_valid_utf8(file);
    encode_utf8_decode_utf8(file);
    assert(file.subrange(5, file.len() - 5) =~= name);
}

/// No other file is taken for a session: one that names a session is named as
/// the socket of that session.
pub proof fn law_named_session_has_that_file(file_name: Seq<u8>, name: Seq<char>)
    requires
        named_session(file_name) == Some(name),
    ensures
        name.len() > 0,
        file_name == encode_utf8(socket_file(name)),
{
    decode_utf8_encode_utf8(file_name);
}

/// `row` shows a name and a socket: the name stands in front, spaces fill the
/// column of 24 characters where the name is shorter, and one more space parts
/// it from the socket, which ends the row.
pub open spec fn shows(row: Seq<char>, name: Seq<char>, socket: Seq<char>) -> bool {
    let column: int = if name.len() < 24 { 24 } else { name.len() as int };
    &&& row.len() == column + 1 + socket.len()
    &&& forall|i: int| 0 <= i < name.len() ==> #[trigger] row[i] == name[i]
    &&& forall|i: int| name.len() <= i <= column ==> #[trigger] row[i] == ' '
    &&& row.skip(column + 1) == socket
}

/// Each session has its row, in the order of the listing, below the headings:
/// the table has one line more than there are sessions. Where there is none, one
/// line says so.
pub proof fn law_each_session_has_its_row(sessions: Seq<SessionText>)
    ensures
        sessions.len() == 0 ==> session_table(sessions) == seq!["no active sessions"@],
        sessions.len() > 0 ==> session_table(sessions).len() == sessions.len() + 1,
        sessions.len() > 0 ==> shows(session_table(sessions)[0], "NAME"@, "SOCKET"@),
        forall|i: int|
            0 <= i < sessions.len() ==> shows(
                #[trigger] session_table(sessions)[i + 1],
                sessions[i].name,
                sessions[i].socket,
            ),
{
    if sessions.len() > 0 {
        lemma_row_shows("NAME"@, "SOCKET"@);
        assert forall|i: int| 0 <= i < sessions.len() implies shows(
            #[trigger] session_table(sessions)[i + 1],
            sessions[i].name,
            sessions[i].socket,
        ) by {
            lemma_row_shows(sessions[i].name, sessions[i].socket);
        }
    }
}

proof fn lemma_row_shows(name: Seq<char>, socket: Seq<char>)
    ensures
        shows(table_row(name, socket), name, socket),
{
    reveal_strlit(" ");
    let column: int = if name.len() < 24 { 24 } else { name.len() as int };
    crate::text::law_padding_is_space(name, 24);
    assert(table_row(name, socket).skip(column + 1) =~= socket);
}

/// The sessions as text are those of the list, as many, each in its place, with
/// its own name and socket.
pub proof fn law_session_texts_are_those_of_the_list(sessions: Seq<Session>)
    ensures
        session_texts(sessions).len() == sessions.len(),
        forall|i: int|
            0 <= i < sessions.len() ==> (#[trigger] session_texts(sessions)[i]).name
                == sessions[i].name@ && session_texts(sessions)[i].socket == sessions[i].socket@,
{
}

/// A letter or digit of ASCII, a dot, an underscore or a hyphen, by its code
/// point.
pub open spec fn is_plain(c: char) -> bool {
    let code = c as int;
    ||| 48 <= code <= 57
    ||| 65 <= code <= 90
    ||| 97 <= code <= 122
    ||| code == 45
    ||| code == 46
    ||| code == 95
}

/// A session can have a name exactly where it has one character at least, and
/// all are letters, digits, dots, underscores or hyphens. An empty name is
/// called empty, and any other that is refused has another character in it.
pub proof fn law_names_are_plain(name: Seq<char>)
    ensures
        is_session_name(name) <==> name.len() > 0 && forall|i: int|
            0 <= i < name.len() ==> is_plain(#[trigger] name[i]),
        name_error(name) is None <==> is_session_name(name),
        name_error(name) == Some(NameError::Empty) <==> name.len() == 0,
        name_error(name) == Some(NameError::InvalidCharacter) <==> name.len() > 0 && exists|i: int|
            0 <= i < name.len() && !is_plain(#[trigger] name[i]),
{
    assert forall|c: char| is_name_char(c) <==> #[trigger] is_plain(c) by {}
    if has_name_chars(name) {
        assert forall|i: int| 0 <= i < name.len() implies is_plain(#[trigger] name[i]) by {
            assert(is_name_char(name[i]));
        }
    } else {
        let i: int = choose|i: int| 0 <= i < name.len() && !is_name_char(#[trigger] name[i]);
        assert(!is_plain(name[i]));
    }
}

/// The path of a socket is `/tmp/dtch_`, the name of the session as it is, and
/// `.sock`, and its file name is what follows `/tmp/`.
pub proof fn law_socket_path_holds_the_name(name: Seq<char>)
    ensures
        socket_location(name).len() == name.len() + 15,
        socket_location(name).take(10) == seq!['/', 't', 'm', 'p', '/', 'd', 't', 'c', 'h', '_'],
        socket_location(name).subrange(10, 10int + name.len()) == name,
        socket_location(name).skip(10int + name.len()) == seq!['.', 's', 'o', 'c', 'k'],
        socket_file(name) == socket_location(name).skip(5),
{
    reveal_strlit("/tmp/dtch_");
    reveal_strlit("dtch_");
    reveal_strlit(".sock");
    let path: Seq<char> = socket_location(name);
    assert(path.take(10) =~= seq!['/', 't', 'm', 'p', '/', 'd', 't', 'c', 'h', '_']);
    assert(path.subrange(10, 10int + name.len()) =~= name);
    assert(path.skip(10int + name.len()) =~= seq!['.', 's', 'o', 'c', 'k']);
    assert(socket_file(name) =~= path.skip(5));
}

/// A file stands for a session exactly where its name is the UTF-8 form of
/// `dtch_`, the name of the session, which is not empty, and `.sock`.
pub proof fn law_file_stands_for_a_session(file_name: Seq<u8>, name: Seq<char>)
    ensures
        named_session(file_name) == Some(name) <==> name.len() > 0 && file_name == encode_utf8(
            "dtch_"@ + name + ".sock"@,
        ),
{
    if named_session(file_name) == Some(name) {
        law_named_session_has_that_file(file_name, name);
        reveal_strlit("dtch_");
        reveal_strlit(".sock");
        assert(socket_file(name) =~= "dtch_"@ + name + ".sock"@);
    }
    if name.len() > 0 && file_name == encode_utf8("dtch_"@ + name + ".sock"@) {
        reveal_strlit("dtch_");
        reveal_strlit(".sock");
        assert(socket_file(name) =~= "dtch_"@ + name + ".sock"@);
        law_socket_file_names_its_session(name);
    }
}

/// The session that an entry of the socket directory stands for.
pub open spec fn entry_session(entry: DirectoryEntry) -> SessionText {
    SessionText { name: named_session(entry.file_name@)->0, socket: entry.path@ }
}

/// The sessions found are those of the entries that are sockets with a fitting
/// name, each of them, with the path of its entry, and in the order of the
/// entries.
pub proof fn law_every_fitting_socket_is_found(entries: Seq<DirectoryEntry>)
    ensures
        found_sessions(entries) == entries.filter(
            |entry: DirectoryEntry| entry.is_socket && named_session(entry.file_name@) is Some,
        ).map_values(|entry: DirectoryEntry| entry_session(entry)),
    decreases entries.len(),
{
    reveal(Seq::filter);
    let fits = |entry: DirectoryEntry|
        entry.is_socket && named_session(entry.file_name@) is Some;
    let to_session = |entry: DirectoryEntry| entry_session(entry);
    if entries.len() == 0 {
        assert(found_sessions(entries) =~= entries.filter(fits).map_values(to_session));
    } else {
        let head: Seq<DirectoryEntry> = entries.drop_last();
        law_every_fitting_socket_is_found(head);
        assert(found_sessions(head) == head.filter(fits).map_values(to_session));
        assert(found_sessions(entries) =~= entries.filter(fits).map_values(to_session));
    }
}

/// The first byte in which `a` and `b` differ stands at `k`, and it is smaller
/// in `a`; or `a` is all before `k`, and `b` goes on as `a` does until there.
pub open spec fn precedes_at(a: Seq<u8>, b: Seq<u8>, k: int) -> bool {
    &&& 0 <= k <= a.len()
    &&& k <= b.len()
    &&& a.take(k) == b.take(k)
    &&& k == a.len() || (k < b.len() && a[k] < b[k])
}

/// Names stand in the order of their bytes: where two differ, the one with the
/// smaller byte in the first place of difference comes first, and a beginning of
/// a name comes before the name.
pub proof fn law_names_stand_in_byte_order(a: Seq<char>, b: Seq<char>)
    ensures
        names_ordered(a, b) <==> exists|k: int| precedes_at(encode_utf8(a), encode_utf8(b), k),
{
    lemma_bytes_order_is_by_first_difference(encode_utf8(a), encode_utf8(b));
}

proof fn lemma_bytes_order_is_by_first_difference(a: Seq<u8>, b: Seq<u8>)
    ensures
        bytes_ordered(a, b) <==> exists|k: int| precedes_at(a, b, k),
    decreases a.len(),
{
    if a.len() == 0 {
        assert(a.take(0) =~= b.take(0));
        assert(precedes_at(a, b, 0));
    } else if b.len() == 0 {
        assert forall|k: int| !precedes_at(a, b, k) by {}
    } else if a[0] != b[0] {
        if a[0] < b[0] {
            assert(a.take(0) =~= b.take(0));
            assert(precedes_at(a, b, 0));
        } else {
            assert forall|k: int| !precedes_at(a, b, k) by {
                if precedes_at(a, b, k) && k > 0 {
                    assert(a.take(k)[0] == b.take(k)[0]);
                }
            }
        }
    } else {
        let rest: Seq<u8> = a.drop_first();
        let other: Seq<u8> = b.drop_first();
        lemma_bytes_order_is_by_first_difference(rest, other);
        if bytes_ordered(rest, other) {
            let k: int = choose|k: int| precedes_at(rest, other, k);
            assert(a.take(k + 1) =~= seq![a[0]] + rest.take(k));
            assert(b.take(k + 1) =~= seq![b[0]] + other.take(k));
            assert(precedes_at(a, b, k + 1));
        }
        if exists|k: int| precedes_at(a, b, k) {
            let k: int = choose|k: int| precedes_at(a, b, k);
            assert(k > 0);
            assert(rest.take(k - 1) =~= a.take(k).drop_first());
            assert(other.take(k - 1) =~= b.take(k).drop_first());
            assert(precedes_at(rest, other, k - 1));
        }
    }
}

/// The listing holds as many sessions as were found, no name before a smaller
/// one, and of each name the sessions that have it, in the order in which they
/// were found.
pub proof fn law_listing_is_sorted_and_stable(
    sessions: Seq<SessionText>,
    sorted: Seq<SessionText>,
    name: Seq<char>,
)
    requires
        is_sorted_form(sessions, sorted),
    ensures
        sorted.len() == sessions.len(),
        forall|i: int, j: int|
            0 <= i < j < sorted.len() ==> names_ordered(
                #[trigger] sorted[i].name,
                #[trigger] sorted[j].name,
            ),
        sorted.filter(|session: SessionText| session.name == name) == sessions.filter(
            |session: SessionText| session.name == name,
        ),
{
    lemma_with_name_is_filter(sorted, name);
    lemma_with_name_is_filter(sessions, name);
    assert(with_name(sorted, name) == with_name(sessions, name));
}

proof fn lemma_with_name_is_filter(sessions: Seq<SessionText>, name: Seq<char>)
    ensures
        with_name(sessions, name) == sessions.filter(|session: SessionText| session.name == name),
    decreases sessions.len(),
{
    reveal(Seq::filter);
    if sessions.len() > 0 {
        lemma_with_name_is_filter(sessions.drop_last(), name);
    }
}

/// Every session with a socket in the directory is listed, under its name and
/// with the path of its socket.
pub proof fn law_every_socket_is_listed(
    entries: Seq<DirectoryEntry>,
    sorted: Seq<SessionText>,
    i: int,
    name: Seq<char>,
)
    requires
        is_sorted_form(found_sessions(entries), sorted),
        0 <= i < entries.len(),
        entries[i].is_socket,
        name.len() > 0,
        entries[i].file_name@ == encode_utf8("dtch_"@ + name + ".sock"@),
    ensures
        sorted.contains(SessionText { name, socket: entries[i].path@ }),
{
    let session: SessionText = SessionText { name, socket: entries[i].path@ };
    law_file_stands_for_a_session(entries[i].file_name@, name);
    lemma_entry_is_found(entries, i, session);
    law_sorting_keeps_every_session(found_sessions(entries), sorted, session);
}

proof fn lemma_entry_is_found(entries: Seq<DirectoryEntry>, i: int, session: SessionText)
    requires
        0 <= i < entries.len(),
        is_session_entry(entries[i]),
        session == (SessionText {
            name: named_session(entries[i].file_name@)->0,
            socket: entries[i].path@,
        }),
    ensures
        found_sessions(entries).contains(session),
    decreases entries.len(),
{
    let found: Seq<SessionText> = found_sessions(entries);
    if i == entries.len() - 1 {
        assert(found[found.len() - 1] == session);
    } else {
        let before: Seq<SessionText> = found_sessions(entries.drop_last());
        lemma_entry_is_found(entries.drop_last(), i, session);
        let k: int = choose|k: int| 0 <= k < before.len() && before[k] == session;
        assert(found[k] == session);
    }
}

/// Whatever is listed was found: it has the name and the path of an entry that is
/// a socket and named as the socket of a session.
pub proof fn law_nothing_else_is_listed(
    entries: Seq<DirectoryEntry>,
    sorted: Seq<SessionText>,
    session: SessionText,
)
    requires
        is_sorted_form(found_sessions(entries), sorted),
        sorted.contains(session),
    ensures
        exists|i: int|
            0 <= i < entries.len() && (#[trigger] entries[i]).is_socket && entries[i].path@
                == session.socket && entries[i].file_name@ == encode_utf8(
                "dtch_"@ + session.name + ".sock"@,
            ),
{
    law_sorting_keeps_every_session(found_sessions(entries), sorted, session);
    let i: int = lemma_found_has_its_entry(entries, session);
    law_file_stands_for_a_session(entries[i].file_name@, session.name);
}

proof fn lemma_found_has_its_entry(entries: Seq<DirectoryEntry>, session: SessionText) -> (i: int)
    requires
        found_sessions(entries).contains(session),
    ensures
        0 <= i < entries.len(),
        entries[i].is_socket,
        entries[i].path@ == session.socket,
        named_session(entries[i].file_name@) == Some(session.name),
    decreases entries.len(),
{
    let found: Seq<SessionText> = found_sessions(entries);
    let k: int = choose|k: int| 0 <= k < found.len() && found[k] == session;
    let before: Seq<SessionText> = found_sessions(entries.drop_last());
    if k < before.len() {
        assert(before[k] == session);
        lemma_found_has_its_entry(entries.drop_last(), session)
    } else {
        entries.len() - 1
    }
}

} // verus!
