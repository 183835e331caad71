//! Free-text field validation: length bounds and allow-listed character
//! sets for names, descriptions, messages, search queries and reasons.
//! Fields are trimmed of surrounding whitespace before being judged.

use vstd::prelude::*;
use vstd::string::StrSliceExecFns;

verus! {

/// Longest accepted name, in characters, after trimming.
pub const MAX_NAME_LENGTH: usize = 100;

/// Longest accepted description, in characters, after trimming.
pub const MAX_DESCRIPTION_LENGTH: usize = 500;

/// Longest accepted message, in characters, after trimming.
pub const MAX_MESSAGE_LENGTH: usize = 1000;

/// Longest accepted reason, in characters, after trimming.
pub const MAX_REASON_LENGTH: usize = 200;

/// Shortest accepted name, in characters, after trimming.
pub const MIN_NAME_LENGTH: usize = 1;

/// Longest accepted search query, in characters, after trimming.
pub const MAX_SEARCH_QUERY_LENGTH: usize = 50;

/// Whether a character is alphanumeric. The classification is a fixed
/// function of the character, given by the Unicode properties that the
/// standard library implements.
pub uninterp spec fn is_alphanumeric_char(c: char) -> bool;

/// Whether a character is whitespace. The classification is a fixed
/// function of the character, given by the Unicode properties that the
/// standard library implements.
pub uninterp spec fn is_whitespace_char(c: char) -> bool;

/// Relies on `char::is_alphanumeric`: the Unicode `Alphabetic` and
/// `Numeric` classification, a function of the character alone.
pub assume_specification[ char::is_alphanumeric ](c: char) -> (r: bool)
    ensures
        r == is_alphanumeric_char(c),
;

/// Relies on `char::is_whitespace`: the Unicode `White_Space`
/// classification, a function of the character alone.
pub assume_specification[ char::is_whitespace ](c: char) -> (r: bool)
    ensures
        r == is_whitespace_char(c),
;

/// A rejected free-text field.
#[derive(Debug, PartialEq)]
pub enum ValidationError {
    TooShort(String),
    TooLong(String),
    InvalidCharacters(String),
    Empty(String),
}

/// Mathematical image of a `ValidationError`.
#[verifier::ext_equal]
pub enum ValidationErrorV {
    TooShort(Seq<char>),
    TooLong(Seq<char>),
    InvalidCharacters(Seq<char>),
    Empty(Seq<char>),
}

impl View for ValidationError {
    type V = ValidationErrorV;

    open spec fn view(&self) -> ValidationErrorV {
        match self {
            ValidationError::TooShort(f) => ValidationErrorV::TooShort(f@),
            ValidationError::TooLong(f) => ValidationErrorV::TooLong(f@),
            ValidationError::InvalidCharacters(f) => ValidationErrorV::InvalidCharacters(f@),
            ValidationError::Empty(f) => ValidationErrorV::Empty(f@),
        }
    }
}

/// The characters left after dropping leading whitespace.
pub open spec fn trim_front(s: Seq<char>) -> Seq<char>
    decreases s.len(),
{
    if s.len() > 0 && is_whitespace_char(s[0]) {
        trim_front(s.drop_first())
    } else {
        s
    }
}

/// The characters left after dropping trailing whitespace.
pub open spec fn trim_back(s: Seq<char>) -> Seq<char>
    decreases s.len(),
{
    if s.len() > 0 && is_whitespace_char(s.last()) {
        trim_back(s.drop_last())
    } else {
        s
    }
}

/// The characters left after dropping surrounding whitespace.
pub open spec fn trim_spec(s: Seq<char>) -> Seq<char> {
    trim_back(trim_front(s))
}

/// Dropping leading whitespace keeps exactly the suffix from the first
/// non-whitespace character on.
proof fn lemma_trim_front_skip(s: Seq<char>, a: int)
    requires
        0 <= a <= s.len(),
        forall|j: int| 0 <= j < a ==> is_whitespace_char(#[trigger] s[j]),
        a < s.len() ==> !is_whitespace_char(s[a]),
    ensures
        trim_front(s) == s.skip(a),
    decreases a,
{
    if a == 0 {
        assert(s.skip(0) =~= s);
    } else {
        assert(s.drop_first() =~= s.skip(1));
        assert forall|j: int| 0 <= j < a - 1 implies is_whitespace_char(
            #[trigger] s.skip(1)[j],
        ) by {
            assert(s.skip(1)[j] == s[j + 1]);
        }
        assert(a - 1 < s.skip(1).len() ==> !is_whitespace_char(s.skip(1)[a - 1]));
        lemma_trim_front_skip(s.skip(1), a - 1);
        assert(s.skip(1).skip(a - 1) =~= s.skip(a));
    }
}

/// Dropping trailing whitespace keeps exactly the prefix up to the last
/// non-whitespace character.
proof fn lemma_trim_back_take(s: Seq<char>, b: int)
    requires
        0 <= b <= s.len(),
        forall|j: int| b <= j < s.len() ==> is_whitespace_char(#[trigger] s[j]),
        b > 0 ==> !is_whitespace_char(s[b - 1]),
    ensures
        trim_back(s) == s.take(b),
    decreases s.len(),
{
    if b == s.len() {
        if s.len() > 0 {
            assert(!is_whitespace_char(s.last()));
        }
        assert(s.take(b) =~= s);
    } else {
        assert(is_whitespace_char(s.last()));
        assert(s.drop_last() =~= s.take(s.len() - 1));
        assert forall|j: int| b <= j < s.drop_last().len() implies is_whitespace_char(
            #[trigger] s.drop_last()[j],
        ) by {
            assert(s.drop_last()[j] == s[j]);
        }
        lemma_trim_back_take(s.drop_last(), b);
        assert(s.drop_last().take(b) =~= s.take(b));
    }
}

/// The trimmed view of `s` is the subrange between the first and last
/// non-whitespace characters.
proof fn lemma_trim(s: Seq<char>, a: int, b: int)
    requires
        0 <= a <= b <= s.len(),
        forall|j: int| 0 <= j < a ==> is_whitespace_char(#[trigger] s[j]),
        forall|j: int| b <= j < s.len() ==> is_whitespace_char(#[trigger] s[j]),
        a < b ==> !is_whitespace_char(s[a]) && !is_whitespace_char(s[b - 1]),
    ensures
        trim_spec(s) == s.subrange(a, b),
{
    if a == b {
        lemma_trim_front_skip(s, s.len() as int);
        assert(s.skip(s.len() as int) =~= Seq::<char>::empty());
        assert(trim_back(Seq::<char>::empty()) == Seq::<char>::empty());
        assert(s.subrange(a, b) =~= Seq::<char>::empty());
    } else {
        lemma_trim_front_skip(s, a);
        let t = s.skip(a);
        assert forall|j: int| b - a <= j < t.len() implies is_whitespace_char(
            #[trigger] t[j],
        ) by {
            assert(t[j] == s[j + a]);
        }
        assert(t[b - a - 1] == s[b - 1]);
        lemma_trim_back_take(t, b - a);
        assert(t.take(b - a) =~= s.subrange(a, b));
    }
}

/// Find the trimmed bounds of `s`: the index of its first non-whitespace
/// character and one past its last.
fn trim_bounds(s: &str) -> (r: (usize, usize))
    ensures
        r.0 <= r.1 <= s@.len(),
        trim_spec(s@) == s@.subrange(r.0 as int, r.1 as int),
{
    let n = s.unicode_len();
    let mut start: usize = 0;
    while start < n
        invariant
            start <= n,
            n == s@.len(),
            forall|j: int| 0 <= j < start ==> is_whitespace_char(#[trigger] s@[j]),
        ensures
            start <= n,
            n == s@.len(),
            forall|j: int| 0 <= j < start ==> is_whitespace_char(#[trigger] s@[j]),
            start < n ==> !is_whitespace_char(s@[start as int]),
        decreases n - start,
    {
        let c = s.get_char(start);
        if !c.is_whitespace() {
            break ;
        }
        start += 1;
    }
    if start == n {
        proof {
            lemma_trim(s@, n as int, n as int);
        }
        return (n, n);
    }
    let mut end: usize = n;
    while end > start + 1
        invariant
            start < end <= n,
            n == s@.len(),
            start < n,
            !is_whitespace_char(s@[start as int]),
            forall|j: int| end <= j < n ==> is_whitespace_char(#[trigger] s@[j]),
        ensures
            start < end <= n,
            n == s@.len(),
            forall|j: int| end <= j < n ==> is_whitespace_char(#[trigger] s@[j]),
            !is_whitespace_char(s@[end - 1]),
        decreases end,
    {
        let c = s.get_char(end - 1);
        if !c.is_whitespace() {
            break ;
        }
        end -= 1;
    }
    proof {
        lemma_trim(s@, start as int, end as int);
    }
    (start, end)
}

/// Whether a character may appear in a name: letters, digits, whitespace,
/// hyphens, apostrophes and periods.
pub open spec fn name_char_ok(c: char) -> bool {
    is_alphanumeric_char(c) || is_whitespace_char(c) || c == '-' || c == '\'' || c == '.'
}

/// Whether a character may appear in a description or a reason: letters,
/// digits, whitespace and common punctuation.
pub open spec fn text_char_ok(c: char) -> bool {
    ||| is_alphanumeric_char(c)
    ||| is_whitespace_char(c)
    ||| c == '.' || c == ',' || c == '!' || c == '?' || c == ';' || c == ':' || c == '-'
    ||| c == '\'' || c == '"' || c == '(' || c == ')' || c == '[' || c == ']' || c == '{'
    ||| c == '}'
}

/// Whether a character may appear in a message: the description set plus
/// the symbols common in informal text.
pub open spec fn message_char_ok(c: char) -> bool {
    ||| text_char_ok(c)
    ||| c == '@' || c == '#' || c == '$' || c == '%' || c == '&' || c == '*' || c == '+'
    ||| c == '=' || c == '_' || c == '/' || c == '|' || c == '\\' || c == '<' || c == '>'
}

/// Whether a character may appear in a search query: the name set plus
/// `@` and `_`, for email-like searches.
pub open spec fn query_char_ok(c: char) -> bool {
    name_char_ok(c) || c == '@' || c == '_'
}

/// The exact failure `validate_name` reports, `None` when the name is
/// acceptable.
pub open spec fn validate_name_spec(name: Seq<char>, field: Seq<char>) -> Option<
    ValidationErrorV,
> {
    let t = trim_spec(name);
    if t.len() == 0 {
        Some(ValidationErrorV::Empty(field))
    } else if t.len() < MIN_NAME_LENGTH {
        Some(ValidationErrorV::TooShort(field))
    } else if t.len() > MAX_NAME_LENGTH {
        Some(ValidationErrorV::TooLong(field))
    } else if exists|i: int| 0 <= i < t.len() && !name_char_ok(#[trigger] t[i]) {
        Some(ValidationErrorV::InvalidCharacters(field))
    } else {
        None
    }
}

/// Validate a name field (user names, family names, and the like):
/// non-empty after trimming, within the length bounds, letters, digits,
/// whitespace, hyphens, apostrophes and periods only.
pub fn validate_name(name: &str, field_name: &str) -> (r: Result<(), ValidationError>)
    ensures
        r matches Ok(_) <==> validate_name_spec(name@, field_name@) is None,
        r matches Err(e) ==> Some(e@) == validate_name_spec(name@, field_name@),
{
    let (a, b) = trim_bounds(name);
    let tlen = b - a;
    if tlen == 0 {
        return Err(ValidationError::Empty(field_name.to_owned()));
    }
    if tlen < MIN_NAME_LENGTH {
        return Err(ValidationError::TooShort(field_name.to_owned()));
    }
    if tlen > MAX_NAME_LENGTH {
        return Err(ValidationError::TooLong(field_name.to_owned()));
    }
    let mut i: usize = a;
    while i < b
        invariant
            a <= i <= b <= name@.len(),
            trim_spec(name@) == name@.subrange(a as int, b as int),
            0 < b - a && MIN_NAME_LENGTH <= b - a <= MAX_NAME_LENGTH,
            forall|k: int| a <= k < i ==> name_char_ok(#[trigger] name@[k]),
        decreases b - i,
    {
        let c = name.get_char(i);
        if !(c.is_alphanumeric() || c.is_whitespace() || c == '-' || c == '\'' || c == '.') {
            proof {
                assert(trim_spec(name@)[i - a] == name@[i as int]);
            }
            return Err(ValidationError::InvalidCharacters(field_name.to_owned()));
        }
        i += 1;
    }
    proof {
        assert forall|k: int| 0 <= k < trim_spec(name@).len() implies name_char_ok(
            #[trigger] trim_spec(name@)[k],
        ) by {
            assert(trim_spec(name@)[k] == name@[k + a]);
        }
    }
    Ok(())
}

/// The exact failure `validate_description` reports, `None` when the
/// description is acceptable.
pub open spec fn validate_description_spec(description: Seq<char>) -> Option<ValidationErrorV> {
    let t = trim_spec(description);
    if t.len() > MAX_DESCRIPTION_LENGTH {
        Some(ValidationErrorV::TooLong("description"@))
    } else if exists|i: int| 0 <= i < t.len() && !text_char_ok(#[trigger] t[i]) {
        Some(ValidationErrorV::InvalidCharacters("description"@))
    } else {
        None
    }
}

/// Validate a description field: within the length bound (it may be
/// empty), letters, digits, whitespace and common punctuation only.
pub fn validate_description(description: &str) -> (r: Result<(), ValidationError>)
    ensures
        r matches Ok(_) <==> validate_description_spec(description@) is None,
        r matches Err(e) ==> Some(e@) == validate_description_spec(description@),
{
    let (a, b) = trim_bounds(description);
    if b - a > MAX_DESCRIPTION_LENGTH {
        return Err(ValidationError::TooLong("description".to_owned()));
    }
    let mut i: usize = a;
    while i < b
        invariant
            a <= i <= b <= description@.len(),
            trim_spec(description@) == description@.subrange(a as int, b as int),
            b - a <= MAX_DESCRIPTION_LENGTH,
            forall|k: int| a <= k < i ==> text_char_ok(#[trigger] description@[k]),
        decreases b - i,
    {
        let c = description.get_char(i);
        if !(c.is_alphanumeric() || c.is_whitespace() || c == '.' || c == ',' || c == '!' || c
            == '?' || c == ';' || c == ':' || c == '-' || c == '\'' || c == '"' || c == '(' || c
            == ')' || c == '[' || c == ']' || c == '{' || c == '}') {
            proof {
                assert(trim_spec(description@)[i - a] == description@[i as int]);
            }
            return Err(ValidationError::InvalidCharacters("description".to_owned()));
        }
        i += 1;
    }
    proof {
        assert forall|k: int| 0 <= k < trim_spec(description@).len() implies text_char_ok(
            #[trigger] trim_spec(description@)[k],
        ) by {
            assert(trim_spec(description@)[k] == description@[k + a]);
        }
    }
    Ok(())
}

/// The exact failure `validate_message` reports, `None` when the message
/// is acceptable.
pub open spec fn validate_message_spec(message: Seq<char>) -> Option<ValidationErrorV> {
    let t = trim_spec(message);
    if t.len() > MAX_MESSAGE_LENGTH {
        Some(ValidationErrorV::TooLong("message"@))
    } else if exists|i: int| 0 <= i < t.len() && !message_char_ok(#[trigger] t[i]) {
        Some(ValidationErrorV::InvalidCharacters("message"@))
    } else {
        None
    }
}

/// Validate a message field (invitations and the like): within the length
/// bound (it may be empty), letters, digits, whitespace, punctuation and
/// the common symbols only.
pub fn validate_message(message: &str) -> (r: Result<(), ValidationError>)
    ensures
        r matches Ok(_) <==> validate_message_spec(message@) is None,
        r matches Err(e) ==> Some(e@) == validate_message_spec(message@),
{
    let (a, b) = trim_bounds(message);
    if b - a > MAX_MESSAGE_LENGTH {
        return Err(ValidationError::TooLong("message".to_owned()));
    }
    let mut i: usize = a;
    while i < b
        invariant
            a <= i <= b <= message@.len(),
            trim_spec(message@) == message@.subrange(a as int, b as int),
            b - a <= MAX_MESSAGE_LENGTH,
            forall|k: int| a <= k < i ==> message_char_ok(#[trigger] message@[k]),
        decreases b - i,
    {
        let c = message.get_char(i);
        if !(c.is_alphanumeric() || c.is_whitespace() || c == '.' || c == ',' || c == '!' || c
            == '?' || c == ';' || c == ':' || c == '-' || c == '\'' || c == '"' || c == '(' || c
            == ')' || c == '[' || c == ']' || c == '{' || c == '}' || c == '@' || c == '#' || c
            == '$' || c == '%' || c == '&' || c == '*' || c == '+' || c == '=' || c == '_' || c
            == '/' || c == '|' || c == '\\' || c == '<' || c == '>') {
            proof {
                assert(trim_spec(message@)[i - a] == message@[i as int]);
            }
            return Err(ValidationError::InvalidCharacters("message".to_owned()));
        }
        i += 1;
    }
    proof {
        assert forall|k: int| 0 <= k < trim_spec(message@).len() implies message_char_ok(
            #[trigger] trim_spec(message@)[k],
        ) by {
            assert(trim_spec(message@)[k] == message@[k + a]);
        }
    }
    Ok(())
}

/// The exact failure `validate_search_query` reports, `None` when the
/// query is acceptable.
pub open spec fn validate_search_query_spec(query: Seq<char>) -> Option<ValidationErrorV> {
    let t = trim_spec(query);
    if t.len() == 0 {
        Some(ValidationErrorV::Empty("search query"@))
    } else if t.len() < 2 {
        Some(ValidationErrorV::TooShort("search query"@))
    } else if t.len() > MAX_SEARCH_QUERY_LENGTH {
        Some(ValidationErrorV::TooLong("search query"@))
    } else if exists|i: int| 0 <= i < t.len() && !query_char_ok(#[trigger] t[i]) {
        Some(ValidationErrorV::InvalidCharacters("search query"@))
    } else {
        None
    }
}

/// Validate a search query: at least two characters after trimming,
/// within the length bound, the name characters plus `@` and `_` only.
pub fn validate_search_query(query: &str) -> (r: Result<(), ValidationError>)
    ensures
        r matches Ok(_) <==> validate_search_query_spec(query@) is None,
        r matches Err(e) ==> Some(e@) == validate_search_query_spec(query@),
{
    let (a, b) = trim_bounds(query);
    let tlen = b - a;
    if tlen == 0 {
        return Err(ValidationError::Empty("search query".to_owned()));
    }
    if tlen < 2 {
        return Err(ValidationError::TooShort("search query".to_owned()));
    }
    if tlen > MAX_SEARCH_QUERY_LENGTH {
        return Err(ValidationError::TooLong("search query".to_owned()));
    }
    let mut i: usize = a;
    while i < b
        invariant
            a <= i <= b <= query@.len(),
            trim_spec(query@) == query@.subrange(a as int, b as int),
            2 <= b - a <= MAX_SEARCH_QUERY_LENGTH,
            forall|k: int| a <= k < i ==> query_char_ok(#[trigger] query@[k]),
        decreases b - i,
    {
        let c = query.get_char(i);
        if !(c.is_alphanumeric() || c.is_whitespace() || c == '-' || c == '\'' || c == '.' || c
            == '@' || c == '_') {
            proof {
                assert(trim_spec(query@)[i - a] == query@[i as int]);
            }
            return Err(ValidationError::InvalidCharacters("search query".to_owned()));
        }
        i += 1;
    }
    proof {
        assert forall|k: int| 0 <= k < trim_spec(query@).len() implies query_char_ok(
            #[trigger] trim_spec(query@)[k],
        ) by {
            assert(trim_spec(query@)[k] == query@[k + a]);
        }
    }
    Ok(())
}

/// The exact failure `validate_reason` reports, `None` when the reason is
/// acceptable.
pub open spec fn validate_reason_spec(reason: Seq<char>) -> Option<ValidationErrorV> {
    let t = trim_spec(reason);
    if t.len() == 0 {
        Some(ValidationErrorV::Empty("reason"@))
    } else if t.len() > MAX_REASON_LENGTH {
        Some(ValidationErrorV::TooLong("reason"@))
    } else if exists|i: int| 0 <= i < t.len() && !text_char_ok(#[trigger] t[i]) {
        Some(ValidationErrorV::InvalidCharacters("reason"@))
    } else {
        None
    }
}

/// Validate a reason field (claims and the like): non-empty after
/// trimming, within the length bound, letters, digits, whitespace and
/// common punctuation only.
pub fn validate_reason(reason: &str) -> (r: Result<(), ValidationError>)
    ensures
        r matches Ok(_) <==> validate_reason_spec(reason@) is None,
        r matches Err(e) ==> Some(e@) == validate_reason_spec(reason@),
{
    let (a, b) = trim_bounds(reason);
    let tlen = b - a;
    if tlen == 0 {
        return Err(ValidationError::Empty("reason".to_owned()));
    }
    if tlen > MAX_REASON_LENGTH {
        return Err(ValidationError::TooLong("reason".to_owned()));
    }
    let mut i: usize = a;
    while i < b
        invariant
            a <= i <= b <= reason@.len(),
            trim_spec(reason@) == reason@.subrange(a as int, b as int),
            0 < b - a <= MAX_REASON_LENGTH,
            forall|k: int| a <= k < i ==> text_char_ok(#[trigger] reason@[k]),
        decreases b - i,
    {
        let c = reason.get_char(i);
        if !(c.is_alphanumeric() || c.is_whitespace() || c == '.' || c == ',' || c == '!' || c
            == '?' || c == ';' || c == ':' || c == '-' || c == '\'' || c == '"' || c == '(' || c
            == ')' || c == '[' || c == ']' || c == '{' || c == '}') {
            proof {
                assert(trim_spec(reason@)[i - a] == reason@[i as int]);
            }
            return Err(ValidationError::InvalidCharacters("reason".to_owned()));
        }
        i += 1;
    }
    proof {
        assert forall|k: int| 0 <= k < trim_spec(reason@).len() implies text_char_ok(
            #[trigger] trim_spec(reason@)[k],
        ) by {
            assert(trim_spec(reason@)[k] == reason@[k + a]);
        }
    }
    Ok(())
}

} // verus!
