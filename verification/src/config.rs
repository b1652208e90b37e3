//! The server configuration: a JSON document whose string members name the
//! server's directories, program and save.
use vstd::prelude::*;
use crate::text::opt_text;

verus! {

/// serde_json's error type, carried through opaque; nothing is claimed of it.
#[verifier::external_type_specification]
#[verifier::external_body]
pub struct ExJsonError(serde_json::Error);

/// What serde_json makes of `key` in the JSON text `text`: `None` when the
/// text is not valid JSON, `Some(None)` when the document has no member
/// `key` or that member is not a string, and `Some(Some(s))` when it is the
/// string `s`.
pub uninterp spec fn json_str_member_of(text: Seq<char>, key: Seq<char>) -> Option<
    Option<Seq<char>>,
>;

/// `s` stands in `text` between two double quotes.
pub open spec fn quoted_in(s: Seq<char>, text: Seq<char>) -> bool {
    exists|i: int|
        1 <= i && i + s.len() < text.len() && text[i - 1] == '"' && text[i + s.len()] == '"'
            && #[trigger] text.subrange(i, i + s.len()) == s
}

/// Reads the string member `key` of the JSON document `text` with serde_json:
/// `serde_json::from_str` into a `serde_json::Value`, then the value's index
/// by `key` and `Value::as_str`. The contract ties the result to
/// [`json_str_member_of`]: a parse error gives `Err`, a missing or non-string
/// member `Ok(None)`, a string member `Ok(Some(..))` with its text. When
/// the text holds no backslash, it has no escapes, so a string member's
/// value and its key are each spelt out in it between double quotes
/// (serde_json borrows an unescaped string token as it stands).
#[verifier::external_body]
fn json_str_member(text: &str, key: &str) -> (r: Result<Option<String>, serde_json::Error>)
    ensures
        json_str_member_of(text@, key@) == match r {
            Ok(Some(s)) => Some(Some(s@)),
            Ok(None) => Some(None),
            Err(_) => None::<Option<Seq<char>>>,
        },
        !text@.contains('\\') ==> (r matches Ok(Some(s)) ==> quoted_in(s@, text@) && quoted_in(
            key@,
            text@,
        )),
{
    let v: serde_json::Value = serde_json::from_str(text)?;
    Ok(v[key].as_str().map(String::from))
}

/// Errors of reading the configuration.
#[derive(Debug)]
pub enum ConfigError {
    /// The text is not valid JSON; serde_json's error says where and why.
    InvalidJson(serde_json::Error),
    /// The document has no string member of this name.
    MissingMember(String),
}

/// The configuration of a hosted server. Each field is `None` until read.
#[derive(Debug, Clone, PartialEq, Eq)]
pub struct ServerDetails {
    pub root_url: Option<String>,
    pub parent_dir: Option<String>,
    pub executable: Option<String>,
    pub saves_dir: Option<String>,
    pub default_save: Option<String>,
}

impl Default for ServerDetails {
    fn default() -> (r: ServerDetails)
        ensures
            r.root_url is None,
            r.parent_dir is None,
            r.executable is None,
            r.saves_dir is None,
            r.default_save is None,
    {
        ServerDetails {
            root_url: None,
            parent_dir: None,
            executable: None,
            saves_dir: None,
            default_save: None,
        }
    }
}

/// The member `key` of `text` is a string whenever `text` is valid JSON.
pub open spec fn member_is_string(text: Seq<char>, key: Seq<char>) -> bool {
    json_str_member_of(text, key) != Some(None::<Seq<char>>)
}

/// The configuration's members, in the order they are read.
pub open spec fn detail_keys() -> Seq<Seq<char>> {
    seq!["root_url"@, "parent_dir"@, "executable"@, "saves_dir"@, "default_save"@]
}

/// What reading the member `key` of `text` gives: the member's text, or
/// `None` when `text` is not valid JSON.
pub open spec fn member_text(text: Seq<char>, key: Seq<char>) -> Option<Seq<char>> {
    match json_str_member_of(text, key) {
        Some(Some(s)) => Some(s),
        _ => None,
    }
}

/// The texts of the five fields of a configuration.
pub open spec fn details_texts(sd: ServerDetails) -> Seq<Option<Seq<char>>> {
    seq![
        opt_text(sd.root_url),
        opt_text(sd.parent_dir),
        opt_text(sd.executable),
        opt_text(sd.saves_dir),
        opt_text(sd.default_save),
    ]
}

/// Whether `text` is valid JSON for every configuration member lookup.
pub open spec fn details_parse(text: Seq<char>) -> bool {
    forall|i: int| 0 <= i < 5 ==> (#[trigger] json_str_member_of(text, detail_keys()[i])) is Some
}

/// The string member `key` of the JSON text.
fn member(text: &str, key: &str) -> (r: Result<Option<String>, ConfigError>)
    ensures
        r matches Err(e) ==> e is InvalidJson,
        !text@.contains('\\') ==> (r matches Ok(Some(s)) ==> quoted_in(s@, text@)),
        json_str_member_of(text@, key@) == match r {
            Ok(Some(s)) => Some(Some(s@)),
            Ok(None) => Some(None),
            Err(_) => None::<Option<Seq<char>>>,
        },
{
    match json_str_member(text, key) {
        Ok(m) => Ok(m),
        Err(e) => Err(ConfigError::InvalidJson(e)),
    }
}

/// Reads the configuration from the JSON text `contents` into `sd`: each
/// field gets the string member of its name. `InvalidJson` when the text is
/// not valid JSON, and then `sd` is left as it was.
pub fn read_contents(contents: &str, sd: &mut ServerDetails) -> (r: Result<(), ConfigError>)
    requires
        forall|i: int| 0 <= i < 5 ==> member_is_string(contents@, #[trigger] detail_keys()[i]),
    ensures
        r is Ok <==> details_parse(contents@),
        r matches Err(e) ==> e is InvalidJson && *final(sd) == *old(sd),
        r is Ok ==> forall|i: int|
            0 <= i < 5 ==> #[trigger] details_texts(*final(sd))[i] == member_text(
                contents@,
                detail_keys()[i],
            ),
        r is Ok && !contents@.contains('\\') ==> forall|i: int|
            0 <= i < 5 ==> (#[trigger] details_texts(*final(sd))[i]) is Some && quoted_in(
                details_texts(*final(sd))[i]->0,
                contents@,
            ),
{
    proof {
        reveal_strlit("root_url");
        reveal_strlit("parent_dir");
        reveal_strlit("executable");
        reveal_strlit("saves_dir");
        reveal_strlit("default_save");
    }
    let root_url = member(contents, "root_url")?;
    let parent_dir = member(contents, "parent_dir")?;
    let executable = member(contents, "executable")?;
    let saves_dir = member(contents, "saves_dir")?;
    let default_save = member(contents, "default_save")?;
    sd.root_url = root_url;
    sd.parent_dir = parent_dir;
    sd.executable = executable;
    sd.saves_dir = saves_dir;
    sd.default_save = default_save;
    proof {
        assert forall|i: int| 0 <= i < 5 implies (#[trigger] json_str_member_of(
            contents@,
            detail_keys()[i],
        )) is Some by {
            assert(detail_keys()[i] == seq!["root_url"@, "parent_dir"@, "executable"@, "saves_dir"@, "default_save"@][i]);
        }
    }
    Ok(())
}

/// Reads the string member `member` of the JSON text `contents`.
/// `InvalidJson` when the text is not valid JSON.
pub fn read_json_member(contents: &str, member: &str) -> (r: Result<String, ConfigError>)
    requires
        member_is_string(contents@, member@),
    ensures
        r is Ok <==> json_str_member_of(contents@, member@) is Some,
        r matches Err(e) ==> e is InvalidJson,
        r matches Ok(s) ==> member_text(contents@, member@) == Some(s@),
        !contents@.contains('\\') ==> (r matches Ok(s) ==> quoted_in(s@, contents@)),
{
    match json_str_member(contents, member) {
        Ok(m) => Ok(m.unwrap()),
        Err(e) => Err(ConfigError::InvalidJson(e)),
    }
}

/// Reads the string member `member` of the JSON text `contents`, if it has
/// one: `Ok(None)` when the document has no string member of that name,
/// `InvalidJson` when the text is not valid JSON.
pub fn find_json_member(contents: &str, member: &str) -> (r: Result<Option<String>, ConfigError>)
    ensures
        r is Err <==> json_str_member_of(contents@, member@) is None,
        r matches Err(e) ==> e is InvalidJson,
        r matches Ok(None) ==> json_str_member_of(contents@, member@) == Some(
            None::<Seq<char>>,
        ),
        r matches Ok(Some(s)) ==> member_text(contents@, member@) == Some(s@),
        !contents@.contains('\\') ==> (r matches Ok(Some(s)) ==> quoted_in(s@, contents@)),
{
    match json_str_member(contents, member) {
        Err(e) => Err(ConfigError::InvalidJson(e)),
        Ok(None) => Ok(None),
        Ok(Some(_)) => match read_json_member(contents, member) {
            Ok(s) => Ok(Some(s)),
            Err(e) => Err(e),
        },
    }
}

/// Checks that the member `key` of the JSON text is a string: `InvalidJson`
/// when the text is not valid JSON, `MissingMember` when it is not a string.
fn require_member(contents: &str, key: &str) -> (r: Result<(), ConfigError>)
    ensures
        r is Ok <==> json_str_member_of(contents@, key@) matches Some(Some(_)),
        r matches Err(e) ==> (e is InvalidJson && json_str_member_of(
            contents@,
            key@,
        ) is None) || (e is MissingMember && e->MissingMember_0@ == key@
            && json_str_member_of(contents@, key@) == Some(None::<Seq<char>>)),
{
    match json_str_member(contents, key) {
        Err(e) => Err(ConfigError::InvalidJson(e)),
        Ok(None) => Err(ConfigError::MissingMember(key.to_string())),
        Ok(Some(_)) => Ok(()),
    }
}

/// Reads a whole configuration from the JSON text `contents`: every member
/// must be a string. `InvalidJson` when the text is not valid JSON;
/// `MissingMember` naming the first member, in the order of
/// [`detail_keys`], that is missing or not a string.
pub fn load_server_details(contents: &str) -> (r: Result<ServerDetails, ConfigError>)
    ensures
        r is Ok <==> forall|i: int|
            0 <= i < 5 ==> (#[trigger] json_str_member_of(contents@, detail_keys()[i])) matches Some(
                Some(_),
            ),
        r matches Ok(sd) ==> forall|i: int|
            0 <= i < 5 ==> #[trigger] details_texts(sd)[i] == member_text(
                contents@,
                detail_keys()[i],
            ),
        !contents@.contains('\\') ==> (r matches Ok(sd) ==> forall|i: int|
            0 <= i < 5 ==> (#[trigger] details_texts(sd)[i]) is Some && quoted_in(
                details_texts(sd)[i]->0,
                contents@,
            )),
        r matches Err(e) ==> exists|i: int|
            0 <= i < 5 && (forall|j: int|
                0 <= j < i ==> (#[trigger] json_str_member_of(contents@, detail_keys()[j])) matches Some(
                    Some(_),
                )) && ((e is InvalidJson && json_str_member_of(
                contents@,
                detail_keys()[i],
            ) is None) || (e is MissingMember && e->MissingMember_0@ == detail_keys()[i]
                && json_str_member_of(contents@, detail_keys()[i]) == Some(None::<Seq<char>>))),
{
    proof {
        reveal_strlit("root_url");
        reveal_strlit("parent_dir");
        reveal_strlit("executable");
        reveal_strlit("saves_dir");
        reveal_strlit("default_save");
    }
    let keys = ["root_url", "parent_dir", "executable", "saves_dir", "default_save"];
    let mut i: usize = 0;
    while i < 5
        invariant
            0 <= i <= 5,
            forall|t: int| 0 <= t < 5 ==> #[trigger] keys@[t]@ == detail_keys()[t],
            forall|j: int|
                0 <= j < i ==> (#[trigger] json_str_member_of(contents@, detail_keys()[j])) matches Some(
                    Some(_),
                ),
        decreases 5 - i,
    {
        match require_member(contents, keys[i]) {
            Ok(()) => {},
            Err(e) => {
                proof {
                    assert(keys@[i as int]@ == detail_keys()[i as int]);
                }
                return Err(e);
            },
        }
        proof {
            assert(keys@[i as int]@ == detail_keys()[i as int]);
        }
        i = i + 1;
    }
    let mut sd = ServerDetails::default();
    proof {
        assert forall|t: int| 0 <= t < 5 implies member_is_string(
            contents@,
            #[trigger] detail_keys()[t],
        ) by {
            assert(json_str_member_of(contents@, detail_keys()[t]) matches Some(Some(_)));
        }
    }
    match read_contents(contents, &mut sd) {
        Ok(()) => Ok(sd),
        Err(e) => Err(e),
    }
}

/// Reading the whole configuration agrees with reading its members one by
/// one: each field holds what reading the member of its name gives.
pub proof fn lemma_details_agree_with_members(contents: Seq<char>, sd: ServerDetails)
    requires
        forall|i: int|
            0 <= i < 5 ==> #[trigger] details_texts(sd)[i] == member_text(
                contents,
                detail_keys()[i],
            ),
    ensures
        opt_text(sd.root_url) == member_text(contents, "root_url"@),
        opt_text(sd.parent_dir) == member_text(contents, "parent_dir"@),
        opt_text(sd.executable) == member_text(contents, "executable"@),
        opt_text(sd.saves_dir) == member_text(contents, "saves_dir"@),
        opt_text(sd.default_save) == member_text(contents, "default_save"@),
{
    assert(details_texts(sd)[0] == member_text(contents, detail_keys()[0]));
    assert(details_texts(sd)[1] == member_text(contents, detail_keys()[1]));
    assert(details_texts(sd)[2] == member_text(contents, detail_keys()[2]));
    assert(details_texts(sd)[3] == member_text(contents, detail_keys()[3]));
    assert(details_texts(sd)[4] == member_text(contents, detail_keys()[4]));
}

} // verus!
