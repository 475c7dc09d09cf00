//! The JSON body of a login request: the credentials it carries, and the body
//! forwarded to the game server once the secret is taken out.
//!
//! serde_json reads one level of a JSON text at a time (`parse_json`): an
//! object comes back as its keys, in the order serde_json keeps them, each with
//! the compact text of its value. The login rules below work on that.

use serde_json::Value;
use vstd::prelude::*;

verus! {

broadcast use vstd::string::group_string_axioms;

/// A member of an object: its key, the compact JSON text of its value, and,
/// when that value is an object, that object's members (key and value text).
pub struct JsonMember {
    pub key: String,
    pub text: String,
    pub members: Option<Vec<(String, String)>>,
}

/// One level of a JSON value, with one more level inside an object's members.
pub enum JsonNode {
    /// An object.
    Object(Vec<JsonMember>),
    /// A string.
    Str(String),
    /// A number, with its value when it is an integer that fits in a `u64`.
    Number(Option<u64>),
    /// `null`, a boolean or an array.
    Other,
}

/// `JsonMember` with its text as characters.
pub struct JsonMemberModel {
    pub key: Seq<char>,
    pub text: Seq<char>,
    pub members: Option<Seq<(Seq<char>, Seq<char>)>>,
}

/// `JsonNode` with its text as characters.
pub enum JsonNodeModel {
    Object(Seq<JsonMemberModel>),
    Str(Seq<char>),
    Number(Option<u64>),
    Other,
}

/// The characters of each key and value text of an object.
pub open spec fn entries_view(v: Seq<(String, String)>) -> Seq<(Seq<char>, Seq<char>)> {
    v.map_values(|e: (String, String)| (e.0@, e.1@))
}

impl View for JsonMember {
    type V = JsonMemberModel;

    open spec fn view(&self) -> JsonMemberModel {
        JsonMemberModel {
            key: self.key@,
            text: self.text@,
            members: match self.members {
                Some(v) => Some(entries_view(v@)),
                None => None,
            },
        }
    }
}

impl View for JsonNode {
    type V = JsonNodeModel;

    open spec fn view(&self) -> JsonNodeModel {
        match self {
            JsonNode::Object(v) => JsonNodeModel::Object(v@.map_values(|m: JsonMember| m@)),
            JsonNode::Str(s) => JsonNodeModel::Str(s@),
            JsonNode::Number(n) => JsonNodeModel::Number(*n),
            JsonNode::Other => JsonNodeModel::Other,
        }
    }
}

/// What serde_json reads from `text` as a `serde_json::Value`: nothing when it
/// is not JSON; an object's members with their value texts, and the members of
/// those values that are objects. Stating it takes the JSON grammar.
pub uninterp spec fn json_node(text: Seq<char>) -> Option<JsonNodeModel>;

/// `serde_json::from_str::<serde_json::Value>`; the values of an object's
/// members, and of their own members, are turned into their compact text by
/// `Value`'s `Display`, a number into its `Number::as_u64`. The result is named
/// by `json_node`.
#[verifier::external_body]
pub fn parse_json(text: &str) -> (r: Option<JsonNode>)
    ensures
        match r {
            Some(n) => json_node(text@) == Some(n@),
            None => json_node(text@) is None,
        },
{
    let value: Value = serde_json::from_str(text).ok()?;
    Some(match value {
        Value::Object(map) => JsonNode::Object(map.iter().map(|(k, v)| JsonMember {
            key: k.clone(),
            text: v.to_string(),
            members: v.as_object().map(|o| o.iter().map(|(k, v)| (k.clone(), v.to_string())).collect()),
        }).collect()),
        Value::String(s) => JsonNode::Str(s),
        Value::Number(n) => JsonNode::Number(n.as_u64()),
        Value::Null => JsonNode::Other,
        Value::Bool(_) => JsonNode::Other,
        Value::Array(_) => JsonNode::Other,
    })
}

/// A lower-case hexadecimal digit for `d`, below sixteen.
pub open spec fn hex_digit(d: u32) -> char {
    if d < 10 {
        (48 + d) as char
    } else {
        (87 + d) as char
    }
}

/// `\u00` followed by the two lower-case hex digits of `code`, below 0x20.
pub open spec fn unicode_escape(code: u32) -> Seq<char> {
    seq!['\\', 'u', '0', '0'] + seq![hex_digit(code / 16), hex_digit(code % 16)]
}

/// How serde_json writes the character `c` inside a JSON string: `"` and `\`
/// and the control characters `\b`, `\t`, `\n`, `\f`, `\r` escaped with a
/// backslash, other characters below U+0020 as `\u00` and two lower-case hex
/// digits, every other character as it is.
pub open spec fn escaped_char(c: char) -> Seq<char> {
    if c == '"' {
        seq!['\\', '"']
    } else if c == '\\' {
        seq!['\\', '\\']
    } else if c == '\u{8}' {
        seq!['\\', 'b']
    } else if c == '\t' {
        seq!['\\', 't']
    } else if c == '\n' {
        seq!['\\', 'n']
    } else if c == '\u{c}' {
        seq!['\\', 'f']
    } else if c == '\r' {
        seq!['\\', 'r']
    } else if (c as u32) < 0x20 {
        unicode_escape(c as u32)
    } else {
        seq![c]
    }
}

/// The characters of `s`, each written as `escaped_char` writes it.
pub open spec fn escaped_chars(s: Seq<char>) -> Seq<char>
    decreases s.len(),
{
    if s.len() == 0 {
        Seq::empty()
    } else {
        escaped_char(s[0]) + escaped_chars(s.drop_first())
    }
}

/// The compact JSON text of the string `s`, quoted and escaped, as serde_json
/// writes it.
pub open spec fn json_string_text(s: Seq<char>) -> Seq<char> {
    seq!['"'] + escaped_chars(s) + seq!['"']
}

/// `Display` of `serde_json::Value::String`: the string quoted and escaped as
/// `json_string_text` states it (serde_json's `format_escaped_str`).
#[verifier::external_body]
pub fn write_json_string(s: &str) -> (r: String)
    ensures
        r@ == json_string_text(s@),
{
    serde_json::Value::String(s.to_string()).to_string()
}

/// One member of an object written as compact JSON: `"key":value`.
pub open spec fn member_text(e: (Seq<char>, Seq<char>)) -> Seq<char> {
    json_string_text(e.0) + ":"@ + e.1
}

/// The members of an object, written one after the other, parted by `,`.
pub open spec fn members_text(entries: Seq<(Seq<char>, Seq<char>)>) -> Seq<char>
    decreases entries.len(),
{
    if entries.len() == 0 {
        Seq::empty()
    } else if entries.len() == 1 {
        member_text(entries[0])
    } else {
        members_text(entries.drop_last()) + ","@ + member_text(entries.last())
    }
}

/// An object written as compact JSON, as serde_json writes a `Value::Object`.
pub open spec fn object_text(entries: Seq<(Seq<char>, Seq<char>)>) -> Seq<char> {
    "{"@ + members_text(entries) + "}"@
}

/// The value text of the first member named `key`.
pub open spec fn lookup(entries: Seq<(Seq<char>, Seq<char>)>, key: Seq<char>) -> Option<Seq<char>>
    decreases entries.len(),
{
    if entries.len() == 0 {
        None
    } else if entries[0].0 == key {
        Some(entries[0].1)
    } else {
        lookup(entries.drop_first(), key)
    }
}

/// The members other than those named `key`, in their order.
pub open spec fn remove_key(entries: Seq<(Seq<char>, Seq<char>)>, key: Seq<char>) -> Seq<(Seq<char>, Seq<char>)>
    decreases entries.len(),
{
    if entries.len() == 0 {
        entries
    } else if entries[0].0 == key {
        remove_key(entries.drop_first(), key)
    } else {
        seq![entries[0]] + remove_key(entries.drop_first(), key)
    }
}

/// The members, with the value of those named `key` replaced by `value`.
pub open spec fn replace_value(
    entries: Seq<(Seq<char>, Seq<char>)>,
    key: Seq<char>,
    value: Seq<char>,
) -> Seq<(Seq<char>, Seq<char>)> {
    entries.map_values(
        |e: (Seq<char>, Seq<char>)|
            if e.0 == key {
                (e.0, value)
            } else {
                e
            },
    )
}

/// What a login body holds.
pub enum LoginBody {
    /// The body is not JSON.
    NotJson,
    /// There is no string `credentials.username`.
    NoUsername,
    /// There is a username but no `credentials.secret` that is a `u64`.
    NoSecret { username: String },
    /// Username and secret, and the body to forward: the same JSON without
    /// `credentials.secret`.
    Complete { username: String, secret: u64, forwarded: String },
}

/// `LoginBody` with its text as characters.
pub enum LoginBodyModel {
    NotJson,
    NoUsername,
    NoSecret { username: Seq<char> },
    Complete { username: Seq<char>, secret: u64, forwarded: Seq<char> },
}

impl View for LoginBody {
    type V = LoginBodyModel;

    open spec fn view(&self) -> LoginBodyModel {
        match self {
            LoginBody::NotJson => LoginBodyModel::NotJson,
            LoginBody::NoUsername => LoginBodyModel::NoUsername,
            LoginBody::NoSecret { username } => LoginBodyModel::NoSecret { username: username@ },
            LoginBody::Complete { username, secret, forwarded } => LoginBodyModel::Complete {
                username: username@,
                secret: *secret,
                forwarded: forwarded@,
            },
        }
    }
}

/// The keys and value texts of an object's members.
pub open spec fn pairs_of(members: Seq<JsonMemberModel>) -> Seq<(Seq<char>, Seq<char>)> {
    members.map_values(|m: JsonMemberModel| (m.key, m.text))
}

/// The first member named `key`.
pub open spec fn lookup_member(members: Seq<JsonMemberModel>, key: Seq<char>) -> Option<JsonMemberModel>
    decreases members.len(),
{
    if members.len() == 0 {
        None
    } else if members[0].key == key {
        Some(members[0])
    } else {
        lookup_member(members.drop_first(), key)
    }
}

/// The members of `top` and of its `credentials` member, when both are objects.
pub open spec fn credentials_in(top: JsonNodeModel) -> Option<
    (Seq<(Seq<char>, Seq<char>)>, Seq<(Seq<char>, Seq<char>)>),
> {
    match top {
        JsonNodeModel::Object(members) => match lookup_member(members, "credentials"@) {
            Some(m) => match m.members {
                Some(cred) => Some((pairs_of(members), cred)),
                None => None,
            },
            None => None,
        },
        _ => None,
    }
}

/// The top-level members and the `credentials` members of the JSON text `text`.
pub open spec fn credentials_of(text: Seq<char>) -> Option<
    (Seq<(Seq<char>, Seq<char>)>, Seq<(Seq<char>, Seq<char>)>),
> {
    match json_node(text) {
        Some(top) => credentials_in(top),
        None => None,
    }
}

/// What serde_json reads from the value of the `credentials` member `key`.
pub open spec fn credential_node(top: JsonNodeModel, key: Seq<char>) -> Option<JsonNodeModel> {
    match credentials_in(top) {
        Some((_, cred)) => match lookup(cred, key) {
            Some(t) => json_node(t),
            None => None,
        },
        None => None,
    }
}

/// The body forwarded in place of a login body with these members: the same
/// object, whose `credentials` object has lost its `secret` member and kept
/// every other one, in order.
pub open spec fn forwarded_body(
    top: Seq<(Seq<char>, Seq<char>)>,
    cred: Seq<(Seq<char>, Seq<char>)>,
) -> Seq<char> {
    object_text(replace_value(top, "credentials"@, object_text(remove_key(cred, "secret"@))))
}

/// What a login body holds, given what serde_json read from it (`top`), from
/// its `credentials.username` value (`username`) and from its
/// `credentials.secret` value (`secret`): the username must be a string and the
/// secret a `u64`.
pub open spec fn login_from_nodes(
    top: JsonNodeModel,
    username: Option<JsonNodeModel>,
    secret: Option<JsonNodeModel>,
) -> LoginBodyModel {
    match credentials_in(top) {
        None => LoginBodyModel::NoUsername,
        Some((pairs, cred)) => match username {
            Some(JsonNodeModel::Str(u)) => match secret {
                Some(JsonNodeModel::Number(Some(n))) => LoginBodyModel::Complete {
                    username: u,
                    secret: n,
                    forwarded: forwarded_body(pairs, cred),
                },
                _ => LoginBodyModel::NoSecret { username: u },
            },
            _ => LoginBodyModel::NoUsername,
        },
    }
}

/// What the login body `text` holds.
pub open spec fn login_body(text: Seq<char>) -> LoginBodyModel {
    match json_node(text) {
        None => LoginBodyModel::NotJson,
        Some(top) => login_from_nodes(
            top,
            credential_node(top, "username"@),
            credential_node(top, "secret"@),
        ),
    }
}

fn find_member(entries: &Vec<(String, String)>, key: &String) -> (r: Option<usize>)
    ensures
        match r {
            Some(i) => i < entries@.len() && lookup(entries_view(entries@), key@) == Some(
                entries@[i as int].1@,
            ),
            None => lookup(entries_view(entries@), key@) is None,
        },
{
    let ghost all = entries_view(entries@);
    let n = entries.len();
    let mut i: usize = 0;
    assert(all.subrange(0, n as int) =~= all);
    while i < n
        invariant
            i <= n,
            n == entries@.len(),
            all == entries_view(entries@),
            lookup(all, key@) == lookup(all.subrange(i as int, n as int), key@),
        decreases n - i,
    {
        let ghost rest = all.subrange(i as int, n as int);
        assert(rest[0] == (entries@[i as int].0@, entries@[i as int].1@));
        if entries[i].0 == *key {
            return Some(i);
        }
        assert(rest.drop_first() =~= all.subrange(i + 1, n as int));
        i = i + 1;
    }
    None
}

fn remove_member(entries: &Vec<(String, String)>, key: &String) -> (r: Vec<(String, String)>)
    ensures
        entries_view(r@) == remove_key(entries_view(entries@), key@),
{
    let ghost all = entries_view(entries@);
    let n = entries.len();
    let mut out: Vec<(String, String)> = Vec::new();
    let mut i: usize = 0;
    assert(all.subrange(0, n as int) =~= all);
    assert(entries_view(out@) =~= Seq::empty());
    while i < n
        invariant
            i <= n,
            n == entries@.len(),
            all == entries_view(entries@),
            remove_key(all, key@) == entries_view(out@) + remove_key(
                all.subrange(i as int, n as int),
                key@,
            ),
        decreases n - i,
    {
        let ghost rest = all.subrange(i as int, n as int);
        assert(rest[0] == (entries@[i as int].0@, entries@[i as int].1@));
        assert(rest.drop_first() =~= all.subrange(i + 1, n as int));
        if entries[i].0 != *key {
            let ghost before = out@;
            let e = (entries[i].0.clone(), entries[i].1.clone());
            out.push(e);
            assert(entries_view(out@) =~= entries_view(before) + seq![rest[0]]);
            assert(entries_view(before) + (seq![rest[0]] + remove_key(rest.drop_first(), key@))
                =~= entries_view(out@) + remove_key(rest.drop_first(), key@));
        }
        i = i + 1;
    }
    assert(remove_key(all.subrange(n as int, n as int), key@) =~= Seq::empty());
    assert(entries_view(out@) + Seq::<(Seq<char>, Seq<char>)>::empty() =~= entries_view(out@));
    out
}

fn replace_member(entries: &Vec<(String, String)>, key: &String, value: &String) -> (r: Vec<
    (String, String),
>)
    ensures
        entries_view(r@) == replace_value(entries_view(entries@), key@, value@),
{
    let n = entries.len();
    let mut out: Vec<(String, String)> = Vec::new();
    let mut i: usize = 0;
    while i < n
        invariant
            i <= n,
            n == entries@.len(),
            entries_view(out@) == replace_value(entries_view(entries@), key@, value@).subrange(
                0,
                i as int,
            ),
        decreases n - i,
    {
        let ghost before = out@;
        let ghost ev = entries_view(entries@);
        let e = if entries[i].0 == *key {
            (entries[i].0.clone(), value.clone())
        } else {
            (entries[i].0.clone(), entries[i].1.clone())
        };
        let ghost eg = (e.0@, e.1@);
        assert(ev[i as int] == (entries@[i as int].0@, entries@[i as int].1@));
        assert(eg == replace_value(ev, key@, value@)[i as int]);
        out.push(e);
        assert(entries_view(out@) =~= entries_view(before).push(eg));
        assert(entries_view(out@) =~= replace_value(ev, key@, value@).subrange(0, i + 1));
        i = i + 1;
    }
    assert(replace_value(entries_view(entries@), key@, value@).subrange(0, n as int)
        =~= replace_value(entries_view(entries@), key@, value@));
    out
}

/// Writes an object with these members as compact JSON.
pub fn write_object(entries: &Vec<(String, String)>) -> (r: String)
    ensures
        r@ == object_text(entries_view(entries@)),
{
    let ghost all = entries_view(entries@);
    let n = entries.len();
    let mut out = String::from_str("{");
    let mut i: usize = 0;
    assert(all.subrange(0, 0) =~= Seq::<(Seq<char>, Seq<char>)>::empty());
    while i < n
        invariant
            i <= n,
            n == entries@.len(),
            all == entries_view(entries@),
            out@ == "{"@ + members_text(all.subrange(0, i as int)),
        decreases n - i,
    {
        let ghost prefix = all.subrange(0, i as int);
        if i > 0 {
            out.append(",");
        }
        let k = write_json_string(entries[i].0.as_str());
        out.append(k.as_str());
        out.append(":");
        out.append(entries[i].1.as_str());
        let ghost next = all.subrange(0, i + 1);
        assert(next.drop_last() =~= prefix);
        assert(next.last() == (entries@[i as int].0@, entries@[i as int].1@));
        if i == 0 {
            assert(prefix =~= Seq::<(Seq<char>, Seq<char>)>::empty());
            assert(out@ =~= "{"@ + members_text(next));
        } else {
            assert(out@ =~= "{"@ + members_text(next));
        }
        i = i + 1;
    }
    assert(all.subrange(0, n as int) =~= all);
    out.append("}");
    out
}

fn find_json_member(members: &Vec<JsonMember>, key: &String) -> (r: Option<usize>)
    ensures
        match r {
            Some(i) => i < members@.len() && lookup_member(
                members@.map_values(|m: JsonMember| m@),
                key@,
            ) == Some(members@[i as int]@),
            None => lookup_member(members@.map_values(|m: JsonMember| m@), key@) is None,
        },
{
    let ghost all = members@.map_values(|m: JsonMember| m@);
    let n = members.len();
    let mut i: usize = 0;
    assert(all.subrange(0, n as int) =~= all);
    while i < n
        invariant
            i <= n,
            n == members@.len(),
            all == members@.map_values(|m: JsonMember| m@),
            lookup_member(all, key@) == lookup_member(all.subrange(i as int, n as int), key@),
        decreases n - i,
    {
        let ghost rest = all.subrange(i as int, n as int);
        assert(rest[0] == members@[i as int]@);
        if members[i].key == *key {
            return Some(i);
        }
        assert(rest.drop_first() =~= all.subrange(i + 1, n as int));
        i = i + 1;
    }
    None
}

fn pairs_exec(members: &Vec<JsonMember>) -> (r: Vec<(String, String)>)
    ensures
        entries_view(r@) == pairs_of(members@.map_values(|m: JsonMember| m@)),
{
    let n = members.len();
    let mut out: Vec<(String, String)> = Vec::new();
    let mut i: usize = 0;
    while i < n
        invariant
            i <= n,
            n == members@.len(),
            entries_view(out@) == pairs_of(members@.map_values(|m: JsonMember| m@)).subrange(
                0,
                i as int,
            ),
        decreases n - i,
    {
        let ghost before = out@;
        let e = (members[i].key.clone(), members[i].text.clone());
        let ghost eg = (e.0@, e.1@);
        out.push(e);
        assert(entries_view(out@) =~= entries_view(before).push(eg));
        assert(entries_view(out@) =~= pairs_of(members@.map_values(|m: JsonMember| m@)).subrange(
            0,
            i + 1,
        ));
        i = i + 1;
    }
    assert(pairs_of(members@.map_values(|m: JsonMember| m@)).subrange(0, n as int) =~= pairs_of(
        members@.map_values(|m: JsonMember| m@),
    ));
    out
}

/// What a login body holds, given what serde_json read from it (`top`), from
/// its `credentials.username` value and from its `credentials.secret` value.
pub fn login_of(top: &JsonNode, username: Option<JsonNode>, secret: Option<JsonNode>) -> (r: LoginBody)
    ensures
        r@ == login_from_nodes(
            top@,
            match username {
                Some(n) => Some(n@),
                None => None,
            },
            match secret {
                Some(n) => Some(n@),
                None => None,
            },
        ),
{
    let members = match top {
        JsonNode::Object(members) => members,
        _ => return LoginBody::NoUsername,
    };
    let credentials_key = String::from_str("credentials");
    let ci = match find_json_member(members, &credentials_key) {
        None => return LoginBody::NoUsername,
        Some(ci) => ci,
    };
    let cred = match &members[ci].members {
        Some(cred) => cred,
        None => return LoginBody::NoUsername,
    };
    let username = match username {
        Some(JsonNode::Str(u)) => u,
        _ => return LoginBody::NoUsername,
    };
    let secret = match secret {
        Some(JsonNode::Number(Some(n))) => n,
        _ => return LoginBody::NoSecret { username },
    };
    let secret_key = String::from_str("secret");
    let kept = remove_member(cred, &secret_key);
    let cred_text = write_object(&kept);
    let top_pairs = pairs_exec(members);
    let replaced = replace_member(&top_pairs, &credentials_key, &cred_text);
    let forwarded = write_object(&replaced);
    LoginBody::Complete { username, secret, forwarded }
}

/// What serde_json reads from the value of the `credentials` member `key` of `top`.
fn credential_value(top: &JsonNode, key: &str) -> (r: Option<JsonNode>)
    ensures
        match r {
            Some(n) => credential_node(top@, key@) == Some(n@),
            None => credential_node(top@, key@) is None,
        },
{
    let members = match top {
        JsonNode::Object(members) => members,
        _ => return None,
    };
    let credentials_key = String::from_str("credentials");
    let ci = match find_json_member(members, &credentials_key) {
        None => return None,
        Some(ci) => ci,
    };
    let cred = match &members[ci].members {
        Some(cred) => cred,
        None => return None,
    };
    let k = String::from_str(key);
    match find_member(cred, &k) {
        None => None,
        Some(i) => parse_json(cred[i].1.as_str()),
    }
}

/// Reads what the login body `text` holds.
pub fn read_login(text: &str) -> (r: LoginBody)
    ensures
        r@ == login_body(text@),
{
    let top = match parse_json(text) {
        None => return LoginBody::NotJson,
        Some(top) => top,
    };
    let username = credential_value(&top, "username");
    let secret = credential_value(&top, "secret");
    login_of(&top, username, secret)
}

/// Removing the members named `key` leaves none of that name and every other
/// member as it was.
pub proof fn removed_key_is_gone(entries: Seq<(Seq<char>, Seq<char>)>, key: Seq<char>, other: Seq<char>)
    ensures
        lookup(remove_key(entries, key), key) is None,
        other != key ==> lookup(remove_key(entries, key), other) == lookup(entries, other),
    decreases entries.len(),
{
    if entries.len() > 0 {
        removed_key_is_gone(entries.drop_first(), key, other);
        if entries[0].0 != key {
            let r = seq![entries[0]] + remove_key(entries.drop_first(), key);
            assert(r.drop_first() =~= remove_key(entries.drop_first(), key));
        }
    }
}

/// Replacing the value of the members named `key` gives `key` the new value,
/// where it had a member, and leaves every other member as it was.
pub proof fn replaced_value_is_found(
    entries: Seq<(Seq<char>, Seq<char>)>,
    key: Seq<char>,
    value: Seq<char>,
    other: Seq<char>,
)
    ensures
        lookup(replace_value(entries, key, value), key) == match lookup(entries, key) {
            Some(_) => Some(value),
            None => None,
        },
        other != key ==> lookup(replace_value(entries, key, value), other) == lookup(entries, other),
    decreases entries.len(),
{
    if entries.len() > 0 {
        replaced_value_is_found(entries.drop_first(), key, value, other);
        assert(replace_value(entries, key, value).drop_first() =~= replace_value(
            entries.drop_first(),
            key,
            value,
        ));
    }
}

/// The forwarded body keeps the top-level members, with `credentials`
/// replaced by the credentials object written without its `secret` member:
/// that object has no `secret` member and every other credentials member.
pub proof fn forwarded_body_has_no_secret(
    top: Seq<(Seq<char>, Seq<char>)>,
    cred: Seq<(Seq<char>, Seq<char>)>,
    other: Seq<char>,
)
    ensures
        forwarded_body(top, cred) == object_text(
            replace_value(top, "credentials"@, object_text(remove_key(cred, "secret"@))),
        ),
        lookup(remove_key(cred, "secret"@), "secret"@) is None,
        other != "secret"@ ==> lookup(remove_key(cred, "secret"@), other) == lookup(cred, other),
        other != "credentials"@ ==> lookup(
            replace_value(top, "credentials"@, object_text(remove_key(cred, "secret"@))),
            other,
        ) == lookup(top, other),
{
    removed_key_is_gone(cred, "secret"@, other);
    replaced_value_is_found(top, "credentials"@, object_text(remove_key(cred, "secret"@)), other);
}

/// The secret does not reach the forwarded body: two login bodies whose
/// top-level members agree but for the value of `credentials`, and whose
/// credentials agree once `secret` is taken out, are forwarded alike.
pub proof fn secret_does_not_reach_the_forwarded_body(t1: Seq<char>, t2: Seq<char>)
    requires
        credentials_of(t1) matches Some((top1, cred1)) && credentials_of(t2) matches Some(
            (top2, cred2),
        ) && top1.len() == top2.len() && (forall|i: int|
            0 <= i < top1.len() ==> #[trigger] top1[i].0 == top2[i].0 && (top1[i].0
                != "credentials"@ ==> top1[i].1 == top2[i].1)) && remove_key(cred1, "secret"@)
            == remove_key(cred2, "secret"@),
        login_body(t1) is Complete,
        login_body(t2) is Complete,
    ensures
        login_body(t1)->Complete_forwarded == login_body(t2)->Complete_forwarded,
{
    let (top1, cred1) = credentials_of(t1)->0;
    let (top2, cred2) = credentials_of(t2)->0;
    let v = object_text(remove_key(cred1, "secret"@));
    assert(replace_value(top1, "credentials"@, v) =~= replace_value(top2, "credentials"@, v));
}

/// A login body is read from its `credentials` object: it is JSON exactly when
/// serde_json reads it; a complete login carries the string in
/// `credentials.username` and the `u64` in `credentials.secret`, and forwards
/// the same object without the secret; a login without a usable secret keeps
/// its string username; a body whose `credentials` object holds a string
/// username and a `u64` secret is always complete.
pub proof fn logins_come_from_the_credentials(text: Seq<char>)
    ensures
        login_body(text) is NotJson <==> json_node(text) is None,
        ({
            let body = login_body(text);
            let top = json_node(text)->0;
            let user = credential_node(top, "username"@);
            let secret = credential_node(top, "secret"@);
            &&& body is Complete ==> json_node(text) is Some && user == Some(
                JsonNodeModel::Str(body->Complete_username),
            ) && secret == Some(JsonNodeModel::Number(Some(body->Complete_secret)))
                && credentials_of(text) is Some && body->Complete_forwarded == forwarded_body(
                (credentials_of(text)->0).0,
                (credentials_of(text)->0).1,
            )
            &&& body is NoSecret ==> json_node(text) is Some && user == Some(
                JsonNodeModel::Str(body->NoSecret_username),
            ) && !(secret matches Some(JsonNodeModel::Number(Some(_))))
            &&& (json_node(text) is Some && user matches Some(JsonNodeModel::Str(_)))
                ==> (secret matches Some(JsonNodeModel::Number(Some(_))) <==> body is Complete)
        }),
{
}

} // verus!
