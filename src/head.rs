//! The head of a post: a YAML mapping with a required `created` time and
//! optional `hidden`, `tags` and `description` fields.

use vstd::prelude::*;
use crate::post::Timestamp;
use serde_yaml::Value as Yaml;

verus! {

/// The instant, in seconds and nanoseconds since the Unix epoch, and the UTC
/// offset in seconds, that chrono reads from the RFC 3339 text `s`.
pub uninterp spec fn rfc3339_time(s: Seq<char>) -> Option<(i64, u32, i32)>;

/// Relies on chrono's `FromStr` for `DateTime<FixedOffset>`: reads an RFC
/// 3339 date and time with its offset.
#[verifier::external_body]
fn parse_rfc3339(s: &str) -> (r: Option<(i64, u32, i32)>)
    ensures
        r == rfc3339_time(s@),
{
    s.parse::<chrono::DateTime<chrono::FixedOffset>>().ok().map(
        |t| (t.timestamp(), t.timestamp_subsec_nanos(), t.offset().local_minus_utc()),
    )
}

/// The time that `s` gives, as an RFC 3339 date and time.
pub open spec fn created_time(s: Seq<char>) -> Option<Timestamp> {
    match rfc3339_time(s) {
        Some(t) => Some(Timestamp { secs: t.0, nanos: t.1, offset_secs: t.2 }),
        None => None,
    }
}

/// Reads an RFC 3339 date and time, such as `2017-05-05T15:00:00+08:00`.
pub fn parse_created(s: &str) -> (r: Option<Timestamp>)
    ensures
        r == created_time(s@),
{
    match parse_rfc3339(s) {
        Some(t) => Some(Timestamp { secs: t.0, nanos: t.1, offset_secs: t.2 }),
        None => None,
    }
}

/// What a head holds under one key, in the shapes that the head's fields use.
#[derive(Debug)]
pub enum HeadValue {
    /// The key is not there.
    Absent,
    /// The key is there with no value.
    Null,
    /// A boolean.
    Bool(bool),
    /// A string.
    Text(String),
    /// A sequence; each item is its string, or `None` if it is no string.
    List(Vec<Option<String>>),
    /// Anything else.
    Other,
}

/// A [`HeadValue`] as plain values.
pub enum FieldView {
    /// The key is not there.
    Absent,
    /// The key is there with no value.
    Null,
    /// A boolean.
    Bool(bool),
    /// A string.
    Text(Seq<char>),
    /// A sequence; each item is its string, or `None` if it is no string.
    List(Seq<Option<Seq<char>>>),
    /// Anything else.
    Other,
}

/// `v` as plain values.
pub open spec fn field_view(v: HeadValue) -> FieldView {
    match v {
        HeadValue::Absent => FieldView::Absent,
        HeadValue::Null => FieldView::Null,
        HeadValue::Bool(b) => FieldView::Bool(b),
        HeadValue::Text(s) => FieldView::Text(s@),
        HeadValue::List(l) => FieldView::List(l@.map_values(|o: Option<String>| match o {
            Some(s) => Some(s@),
            None => None,
        })),
        HeadValue::Other => FieldView::Other,
    }
}

/// What serde_yaml reads under `key` from the YAML document `text`, or
/// `None` when `text` is not YAML.
pub uninterp spec fn yaml_field(text: Seq<char>, key: Seq<char>) -> Option<FieldView>;

/// Relies on `serde_yaml::from_str` into a `serde_yaml::Value` and on
/// `Value::get`: the value under `key`, told apart by its variant, or the
/// parser's message when `text` is not YAML.
#[verifier::external_body]
fn read_yaml_field(text: &str, key: &str) -> (r: Result<HeadValue, String>)
    ensures
        match r {
            Ok(v) => yaml_field(text@, key@) == Some(field_view(v)),
            Err(_) => yaml_field(text@, key@) is None,
        },
{
    let doc: Yaml = serde_yaml::from_str(text).map_err(|e: serde_yaml::Error| e.to_string())?;
    Ok(match doc.get(key) {
        None => HeadValue::Absent,
        Some(Yaml::Null) => HeadValue::Null,
        Some(Yaml::Bool(b)) => HeadValue::Bool(*b),
        Some(Yaml::String(s)) => HeadValue::Text(s.clone()),
        Some(Yaml::Sequence(items)) => HeadValue::List(
            items.iter().map(|i| match i { Yaml::String(s) => Some(s.clone()), _ => None }).collect(),
        ),
        Some(_) => HeadValue::Other,
    })
}

/// Why a head was refused.
#[derive(Debug)]
pub enum HeadError {
    /// The head is not valid YAML; the parser's message.
    Yaml(String),
    /// The head has no `created` field.
    MissingCreated,
    /// The `created` field is not an RFC 3339 date and time.
    BadCreated,
    /// The named field has a value of the wrong kind.
    BadField(String),
}

/// The fields of a post head.
#[derive(Debug)]
pub struct PostHeaders {
    /// When the post was written.
    pub created: Timestamp,
    /// Whether the post is left out of the index and tag pages.
    pub hidden: bool,
    /// The post's tags, in the order written.
    pub tags: Vec<String>,
    /// The post's description, possibly empty.
    pub description: String,
}

/// The flag that `v` gives, `false` when absent or null.
pub open spec fn flag_field(v: FieldView) -> Option<bool> {
    match v {
        FieldView::Absent | FieldView::Null => Some(false),
        FieldView::Bool(b) => Some(b),
        _ => None,
    }
}

/// The list of strings that `v` gives, empty when absent or null; a
/// sequence with an item that is no string gives none.
pub open spec fn list_field(v: FieldView) -> Option<Seq<Seq<char>>> {
    match v {
        FieldView::Absent | FieldView::Null => Some(Seq::empty()),
        FieldView::List(items) => if forall|i: int| 0 <= i < items.len() ==> (#[trigger] items[i]) is Some {
            Some(items.map_values(|o: Option<Seq<char>>| o->0))
        } else {
            None
        },
        _ => None,
    }
}

/// The string that `v` gives, empty when absent or null.
pub open spec fn text_field(v: FieldView) -> Option<Seq<char>> {
    match v {
        FieldView::Absent | FieldView::Null => Some(Seq::empty()),
        FieldView::Text(s) => Some(s),
        _ => None,
    }
}

/// The time that the `created` field `v` gives.
pub open spec fn created_field(v: FieldView) -> Option<Timestamp> {
    match v {
        FieldView::Text(s) => created_time(s),
        _ => None,
    }
}

/// `hidden`, `tags` and `description` each have a value of the right kind.
pub open spec fn fields_valid(hidden: FieldView, tags: FieldView, description: FieldView) -> bool {
    flag_field(hidden) is Some && list_field(tags) is Some && text_field(description) is Some
}

/// The field named in the error for `hidden`, `tags` and `description`:
/// the first of them that has a value of the wrong kind.
pub open spec fn first_bad_field(hidden: FieldView, tags: FieldView, description: FieldView) -> Seq<char> {
    if flag_field(hidden) is None {
        "hidden"@
    } else if list_field(tags) is None {
        "tags"@
    } else {
        "description"@
    }
}

/// The four fields give valid headers.
pub open spec fn head_valid(created: FieldView, hidden: FieldView, tags: FieldView, description: FieldView) -> bool {
    created_field(created) is Some && fields_valid(hidden, tags, description)
}

/// `h` holds what the four fields give.
pub open spec fn headers_from(h: PostHeaders, created: FieldView, hidden: FieldView, tags: FieldView, description: FieldView) -> bool {
    &&& created_field(created) == Some(h.created)
    &&& flag_field(hidden) == Some(h.hidden)
    &&& list_field(tags) == Some(h.tags@.map_values(|s: String| s@))
    &&& text_field(description) == Some(h.description@)
}

/// `e` is the error for the four fields: a missing `created` first, then a
/// `created` that is no RFC 3339 time, then the first field of the wrong kind.
pub open spec fn fields_error(e: HeadError, created: FieldView, hidden: FieldView, tags: FieldView, description: FieldView) -> bool {
    match created {
        FieldView::Absent | FieldView::Null => e is MissingCreated,
        _ => if created_field(created) is None {
            e is BadCreated
        } else {
            e matches HeadError::BadField(name) && name@ == first_bad_field(hidden, tags, description)
        },
    }
}

/// The four fields of the head `text`, or `None` when it is not YAML.
pub open spec fn head_fields(text: Seq<char>) -> Option<(FieldView, FieldView, FieldView, FieldView)> {
    match (yaml_field(text, "created"@), yaml_field(text, "hidden"@), yaml_field(text, "tags"@), yaml_field(text, "description"@)) {
        (Some(c), Some(h), Some(t), Some(d)) => Some((c, h, t, d)),
        _ => None,
    }
}

/// The head `text` gives valid headers.
pub open spec fn head_ok(text: Seq<char>) -> bool {
    match head_fields(text) {
        Some((c, h, t, d)) => head_valid(c, h, t, d),
        None => false,
    }
}

/// `hd` holds what the head `text` gives.
pub open spec fn headers_of(hd: PostHeaders, text: Seq<char>) -> bool {
    match head_fields(text) {
        Some((c, h, t, d)) => headers_from(hd, c, h, t, d),
        None => false,
    }
}

/// `e` is the error for the head `text`.
pub open spec fn head_error(e: HeadError, text: Seq<char>) -> bool {
    match head_fields(text) {
        Some((c, h, t, d)) => fields_error(e, c, h, t, d),
        None => e is Yaml,
    }
}

/// The strings of `items`, or `None` if one of them is no string.
fn all_texts(items: Vec<Option<String>>) -> (r: Option<Vec<String>>)
    ensures
        list_field(field_view(HeadValue::List(items))) == match r {
            Some(l) => Some(l@.map_values(|s: String| s@)),
            None => None::<Seq<Seq<char>>>,
        },
{
    let ghost iv = field_view(HeadValue::List(items));
    let ghost vs = items@.map_values(|o: Option<String>| match o {
        Some(s) => Some(s@),
        None => None,
    });
    assert(iv == FieldView::List(vs));
    let ghost all = items@;
    let mut out: Vec<String> = Vec::new();
    let mut i: usize = 0;
    let n = items.len();
    while i < n
        invariant
            i <= n == items@.len() == all.len() == vs.len(),
            vs == all.map_values(|o: Option<String>| match o {
                Some(s) => Some(s@),
                None => None,
            }),
            items@ == all,
            out@.len() == i,
            forall|k: int| 0 <= k < i ==> (#[trigger] vs[k]) is Some && vs[k]->0 == out@[k]@,
        decreases n - i,
    {
        match &items[i] {
            Some(s) => {
                out.push(s.clone());
            },
            None => {
                assert(vs[i as int] is None);
                return None;
            },
        }
        i += 1;
    }
    assert(out@.map_values(|s: String| s@) =~= vs.map_values(|o: Option<Seq<char>>| o->0));
    Some(out)
}

impl PostHeaders {
    /// Headers with the given `created` time and the other fields read from
    /// `hidden`, `tags` and `description`, with their defaults when absent.
    /// A field of the wrong kind is refused with its name; `hidden` is
    /// checked first, then `tags`, then `description`.
    pub fn with_created(created: Timestamp, hidden: HeadValue, tags: HeadValue, description: HeadValue) -> (r: Result<PostHeaders, HeadError>)
        ensures
            r is Ok <==> fields_valid(field_view(hidden), field_view(tags), field_view(description)),
            r matches Ok(h) ==> h.created == created && flag_field(field_view(hidden)) == Some(h.hidden)
                && list_field(field_view(tags)) == Some(h.tags@.map_values(|s: String| s@))
                && text_field(field_view(description)) == Some(h.description@),
            r matches Err(e) ==> e matches HeadError::BadField(name) && name@ == first_bad_field(
                field_view(hidden),
                field_view(tags),
                field_view(description),
            ),
    {
        let ghost (hv, tv, dv) = (field_view(hidden), field_view(tags), field_view(description));
        let hidden = match hidden {
            HeadValue::Absent | HeadValue::Null => false,
            HeadValue::Bool(b) => b,
            _ => {
                proof {
                    reveal_strlit("hidden");
                }
                return Err(HeadError::BadField("hidden".to_owned()));
            },
        };
        let tags = match tags {
            HeadValue::Absent | HeadValue::Null => Vec::new(),
            HeadValue::List(l) => match all_texts(l) {
                Some(t) => t,
                None => {
                    proof {
                        reveal_strlit("tags");
                    }
                    return Err(HeadError::BadField("tags".to_owned()));
                },
            },
            _ => {
                proof {
                    reveal_strlit("tags");
                }
                return Err(HeadError::BadField("tags".to_owned()));
            },
        };
        let description = match description {
            HeadValue::Absent | HeadValue::Null => String::new(),
            HeadValue::Text(s) => s,
            _ => {
                proof {
                    reveal_strlit("description");
                }
                return Err(HeadError::BadField("description".to_owned()));
            },
        };
        proof {
            assert(Seq::<String>::empty().map_values(|s: String| s@) =~= Seq::<Seq<char>>::empty());
        }
        Ok(PostHeaders { created, hidden, tags, description })
    }

    /// Headers from the four fields of a head: `created` must be an RFC 3339
    /// date and time; the others are read as in [`PostHeaders::with_created`].
    pub fn from_fields(created: HeadValue, hidden: HeadValue, tags: HeadValue, description: HeadValue) -> (r: Result<PostHeaders, HeadError>)
        ensures
            r is Ok <==> head_valid(field_view(created), field_view(hidden), field_view(tags), field_view(description)),
            r matches Ok(h) ==> headers_from(h, field_view(created), field_view(hidden), field_view(tags), field_view(description)),
            r matches Err(e) ==> fields_error(e, field_view(created), field_view(hidden), field_view(tags), field_view(description)),
    {
        match created {
            HeadValue::Absent | HeadValue::Null => Err(HeadError::MissingCreated),
            HeadValue::Text(t) => match parse_created(t.as_str()) {
                Some(c) => PostHeaders::with_created(c, hidden, tags, description),
                None => Err(HeadError::BadCreated),
            },
            _ => Err(HeadError::BadCreated),
        }
    }
}

/// Parses the head of a post, a YAML mapping whose fields are read by
/// [`PostHeaders::from_fields`]; text that is not YAML gives
/// [`HeadError::Yaml`] with the parser's message.
pub fn parse_head(head: &str) -> (r: Result<PostHeaders, HeadError>)
    ensures
        r is Ok <==> head_ok(head@),
        r matches Ok(h) ==> headers_of(h, head@),
        r matches Err(e) ==> head_error(e, head@),
{
    let created = match read_yaml_field(head, "created") {
        Ok(v) => v,
        Err(msg) => {
            return Err(HeadError::Yaml(msg));
        },
    };
    let hidden = match read_yaml_field(head, "hidden") {
        Ok(v) => v,
        Err(msg) => {
            return Err(HeadError::Yaml(msg));
        },
    };
    let tags = match read_yaml_field(head, "tags") {
        Ok(v) => v,
        Err(msg) => {
            return Err(HeadError::Yaml(msg));
        },
    };
    let description = match read_yaml_field(head, "description") {
        Ok(v) => v,
        Err(msg) => {
            return Err(HeadError::Yaml(msg));
        },
    };
    PostHeaders::from_fields(created, hidden, tags, description)
}

} // verus!
