//! Checks on user-supplied text before it reaches a store query, and the escaping
//! and sanitising applied to such text.

use vstd::prelude::*;
use crate::text::{decimal, push_decimal, replace_all, replace_text, same_text};

verus! {

/// Why a value was refused.
#[derive(Debug, Clone)]
pub enum ValidationError {
    InvalidLength { field: String, min: usize, max: usize, actual: usize },
    InvalidCharacters { field: String, pattern: String },
    RequiredField { field: String },
    InvalidFormat { field: String, expected: String },
}

/// The validation rules, grouped.
pub struct InputValidator;

/// What the regex crate decides for a pattern and a text: the pattern compiles and
/// matches somewhere in the text.
pub uninterp spec fn regex_accepts(pattern: Seq<char>, text: Seq<char>) -> bool;

/// Relies on `regex::Regex::new` and `Regex::is_match`: `true` exactly when the
/// pattern compiles and matches the text; the answer depends on the two texts alone.
#[verifier::external_body]
fn pattern_matches(pattern: &str, text: &str) -> (r: bool)
    ensures
        r == regex_accepts(pattern@, text@),
{
    match regex::Regex::new(pattern) {
        Ok(re) => re.is_match(text),
        Err(_) => false,
    }
}

/// What `char::is_alphanumeric` says of a character.
pub uninterp spec fn unicode_alphanumeric(c: char) -> bool;

/// Relies on `char::is_alphanumeric`: Unicode letters and numbers.
#[verifier::external_body]
fn is_alphanumeric(c: char) -> (r: bool)
    ensures
        r == unicode_alphanumeric(c),
{
    c.is_alphanumeric()
}

/// Punctuation kept when text is shown: space and `-_.,()&@`.
pub open spec fn display_punct(c: char) -> bool {
    c == ' ' || c == '-' || c == '_' || c == '.' || c == ',' || c == '(' || c == ')' || c == '&'
        || c == '@'
}

/// The characters of `t` that are letters, numbers or display punctuation, in order.
pub open spec fn sanitized(t: Seq<char>) -> Seq<char>
    decreases t.len(),
{
    if t.len() == 0 {
        t
    } else {
        let rest = sanitized(t.drop_last());
        if unicode_alphanumeric(t.last()) || display_punct(t.last()) {
            rest.push(t.last())
        } else {
            rest
        }
    }
}

/// `items` joined with `sep` between consecutive items.
pub open spec fn joined(items: Seq<Seq<char>>, sep: Seq<char>) -> Seq<char>
    decreases items.len(),
{
    if items.len() == 0 {
        Seq::empty()
    } else if items.len() == 1 {
        items[0]
    } else {
        joined(items.drop_last(), sep) + sep + items.last()
    }
}

/// The texts of a list of string slices.
pub open spec fn texts_of(v: Seq<&str>) -> Seq<Seq<char>> {
    v.map_values(|s: &str| s@)
}

/// The error for an empty required field.
pub open spec fn required(e: ValidationError, field: Seq<char>) -> bool {
    e matches ValidationError::RequiredField { field: f } && f@ == field
}

/// The error for a value whose byte length is outside `min..=max`.
pub open spec fn bad_length(e: ValidationError, field: Seq<char>, min: int, max: int, actual: int) -> bool {
    e matches ValidationError::InvalidLength { field: f, min: lo, max: hi, actual: n } && f@ == field
        && lo == min && hi == max && n == actual
}

/// The error for a value with characters outside a pattern.
pub open spec fn bad_characters(e: ValidationError, field: Seq<char>, pattern: Seq<char>) -> bool {
    e matches ValidationError::InvalidCharacters { field: f, pattern: p } && f@ == field && p@
        == pattern
}

/// The error for a value of the wrong shape.
pub open spec fn bad_format(e: ValidationError, field: Seq<char>, expected: Seq<char>) -> bool {
    e matches ValidationError::InvalidFormat { field: f, expected: x } && f@ == field && x@
        == expected
}

/// The text of an error, for display.
pub open spec fn error_text(e: ValidationError) -> Seq<char> {
    match e {
        ValidationError::InvalidLength { field, min, max, actual } => "Field '"@ + field@
            + "' length "@ + decimal(actual as nat) + " is outside allowed range "@ + decimal(
            min as nat,
        ) + "-"@ + decimal(max as nat),
        ValidationError::InvalidCharacters { field, pattern } => "Field '"@ + field@
            + "' contains invalid characters. Expected pattern: "@ + pattern@,
        ValidationError::RequiredField { field } => "Required field '"@ + field@
            + "' is missing or empty"@,
        ValidationError::InvalidFormat { field, expected } => "Field '"@ + field@
            + "' has invalid format. Expected: "@ + expected@,
    }
}

impl ValidationError {
    /// The error as a sentence naming the field.
    pub fn message(&self) -> (r: String)
        ensures
            r@ == error_text(*self),
    {
        let mut s = String::new();
        match self {
            ValidationError::InvalidLength { field, min, max, actual } => {
                s.append("Field '");
                s.append(field.as_str());
                s.append("' length ");
                push_decimal(&mut s, *actual as u64);
                s.append(" is outside allowed range ");
                push_decimal(&mut s, *min as u64);
                s.append("-");
                push_decimal(&mut s, *max as u64);
            },
            ValidationError::InvalidCharacters { field, pattern } => {
                s.append("Field '");
                s.append(field.as_str());
                s.append("' contains invalid characters. Expected pattern: ");
                s.append(pattern.as_str());
            },
            ValidationError::RequiredField { field } => {
                s.append("Required field '");
                s.append(field.as_str());
                s.append("' is missing or empty");
            },
            ValidationError::InvalidFormat { field, expected } => {
                s.append("Field '");
                s.append(field.as_str());
                s.append("' has invalid format. Expected: ");
                s.append(expected.as_str());
            },
        }
        assert(s@ =~= error_text(*self));
        s
    }
}

fn required_error(field: &str) -> (r: ValidationError)
    ensures
        required(r, field@),
{
    ValidationError::RequiredField { field: field.to_owned() }
}

impl InputValidator {
    /// A project name: present, 2 to 200 bytes, and made of letters, digits, spaces,
    /// hyphens, underscores, parentheses, `.`, `&` and `,`.
    pub fn validate_project_name(name: &str) -> (r: Result<(), ValidationError>)
        ensures
            name@.len() == 0 ==> (r matches Err(e) && required(e, "name"@)),
            name@.len() > 0 && (name.len() < 2 || name.len() > 200) ==> (r matches Err(e)
                && bad_length(e, "name"@, 2, 200, name.len() as int)),
            name@.len() > 0 && 2 <= name.len() <= 200 ==> (r is Ok <==> regex_accepts(
                "^[a-zA-Z0-9\\s\\-_().&,]+$"@,
                name@,
            )),
            name@.len() > 0 && 2 <= name.len() <= 200 && !regex_accepts(
                "^[a-zA-Z0-9\\s\\-_().&,]+$"@,
                name@,
            ) ==> (r matches Err(e) && bad_characters(
                e,
                "name"@,
                "alphanumeric characters, spaces, hyphens, underscores, parentheses"@,
            )),
    {
        if name.is_empty() {
            return Err(required_error("name"));
        }
        let len = name.len();
        if len < 2 || len > 200 {
            return Err(
                ValidationError::InvalidLength {
                    field: "name".to_owned(),
                    min: 2,
                    max: 200,
                    actual: len,
                },
            );
        }
        if !pattern_matches("^[a-zA-Z0-9\\s\\-_().&,]+$", name) {
            return Err(
                ValidationError::InvalidCharacters {
                    field: "name".to_owned(),
                    pattern: "alphanumeric characters, spaces, hyphens, underscores, parentheses".to_owned(),
                },
            );
        }
        Ok(())
    }

    /// An e-mail address: present and of the form `local@domain.tld`.
    pub fn validate_email(email: &str) -> (r: Result<(), ValidationError>)
        ensures
            email@.len() == 0 ==> (r matches Err(e) && required(e, "email"@)),
            email@.len() > 0 ==> (r is Ok <==> regex_accepts(
                "^[a-zA-Z0-9._%+-]+@[a-zA-Z0-9.-]+\\.[a-zA-Z]{2,}$"@,
                email@,
            )),
            email@.len() > 0 && !regex_accepts(
                "^[a-zA-Z0-9._%+-]+@[a-zA-Z0-9.-]+\\.[a-zA-Z]{2,}$"@,
                email@,
            ) ==> (r matches Err(e) && bad_format(e, "email"@, "valid email address"@)),
    {
        if email.is_empty() {
            return Err(required_error("email"));
        }
        if !pattern_matches("^[a-zA-Z0-9._%+-]+@[a-zA-Z0-9.-]+\\.[a-zA-Z]{2,}$", email) {
            return Err(
                ValidationError::InvalidFormat {
                    field: "email".to_owned(),
                    expected: "valid email address".to_owned(),
                },
            );
        }
        Ok(())
    }

    /// A phone number: present, 7 to 20 digits, spaces, hyphens or parentheses, with
    /// an optional leading `+`.
    pub fn validate_phone(phone: &str) -> (r: Result<(), ValidationError>)
        ensures
            phone@.len() == 0 ==> (r matches Err(e) && required(e, "phone"@)),
            phone@.len() > 0 ==> (r is Ok <==> regex_accepts("^[\\+]?[0-9\\s\\-\\(\\)]{7,20}$"@, phone@)),
            phone@.len() > 0 && !regex_accepts("^[\\+]?[0-9\\s\\-\\(\\)]{7,20}$"@, phone@) ==> (r matches Err(e)
                && bad_format(e, "phone"@, "valid phone number"@)),
    {
        if phone.is_empty() {
            return Err(required_error("phone"));
        }
        if !pattern_matches("^[\\+]?[0-9\\s\\-\\(\\)]{7,20}$", phone) {
            return Err(
                ValidationError::InvalidFormat {
                    field: "phone".to_owned(),
                    expected: "valid phone number".to_owned(),
                },
            );
        }
        Ok(())
    }

    /// A project number of the form `YY-CCCNN`.
    pub fn validate_project_number(number: &str) -> (r: Result<(), ValidationError>)
        ensures
            r is Ok <==> regex_accepts("^\\d{2}-\\d{3}\\d{2}$"@, number@),
            r matches Err(e) ==> bad_format(e, "project_number"@, "YY-CCCNN format (e.g., 25-97105)"@),
    {
        if !pattern_matches("^\\d{2}-\\d{3}\\d{2}$", number) {
            return Err(
                ValidationError::InvalidFormat {
                    field: "project_number".to_owned(),
                    expected: "YY-CCCNN format (e.g., 25-97105)".to_owned(),
                },
            );
        }
        Ok(())
    }

    /// A status that is one of `allowed_values`; otherwise the error lists them.
    pub fn validate_status(status: &str, allowed_values: &[&str]) -> (r: Result<(), ValidationError>)
        ensures
            r is Ok <==> texts_of(allowed_values@).contains(status@),
            r matches Err(e) ==> bad_format(e, "status"@, "one of: "@ + joined(texts_of(allowed_values@), ", "@)),
    {
        let n = allowed_values.len();
        let mut i: usize = 0;
        while i < n
            invariant
                n == allowed_values@.len(),
                i <= n,
                forall|k: int| 0 <= k < i ==> allowed_values@[k]@ != status@,
            decreases n - i,
        {
            if same_text(allowed_values[i], status) {
                assert(texts_of(allowed_values@)[i as int] == status@);
                return Ok(());
            }
            i = i + 1;
        }
        assert(!texts_of(allowed_values@).contains(status@)) by {
            assert forall|k: int| 0 <= k < texts_of(allowed_values@).len() implies texts_of(allowed_values@)[k] != status@ by {
                assert(texts_of(allowed_values@)[k] == allowed_values@[k]@);
            }
        }
        let mut expected = "one of: ".to_owned();
        let listed = join_texts(allowed_values, ", ");
        expected.append(listed.as_str());
        Err(ValidationError::InvalidFormat { field: "status".to_owned(), expected })
    }

    /// A text field: present when `min_len > 0`, and `min_len..=max_len` bytes long.
    pub fn validate_text_field(field_name: &str, value: &str, min_len: usize, max_len: usize) -> (r: Result<(), ValidationError>)
        ensures
            value@.len() == 0 && min_len > 0 ==> (r matches Err(e) && required(e, field_name@)),
            !(value@.len() == 0 && min_len > 0) ==> (r is Ok <==> min_len <= value.len() <= max_len),
            !(value@.len() == 0 && min_len > 0) && !(min_len <= value.len() <= max_len) ==> (r matches Err(e)
                && bad_length(e, field_name@, min_len as int, max_len as int, value.len() as int)),
    {
        if value.is_empty() && min_len > 0 {
            return Err(required_error(field_name));
        }
        let len = value.len();
        if len < min_len || len > max_len {
            return Err(
                ValidationError::InvalidLength {
                    field: field_name.to_owned(),
                    min: min_len,
                    max: max_len,
                    actual: len,
                },
            );
        }
        Ok(())
    }

    /// A record key: present and made of ASCII letters, digits and underscores.
    pub fn validate_id(id: &str) -> (r: Result<(), ValidationError>)
        ensures
            id@.len() == 0 ==> (r matches Err(e) && required(e, "id"@)),
            id@.len() > 0 ==> (r is Ok <==> regex_accepts("^[a-zA-Z0-9_]+$"@, id@)),
            id@.len() > 0 && !regex_accepts("^[a-zA-Z0-9_]+$"@, id@) ==> (r matches Err(e) && bad_characters(
                e,
                "id"@,
                "alphanumeric characters and underscores only"@,
            )),
    {
        if id.is_empty() {
            return Err(required_error("id"));
        }
        if !pattern_matches("^[a-zA-Z0-9_]+$", id) {
            return Err(
                ValidationError::InvalidCharacters {
                    field: "id".to_owned(),
                    pattern: "alphanumeric characters and underscores only".to_owned(),
                },
            );
        }
        Ok(())
    }

    /// The text with every character dropped that is not a letter, a number or one
    /// of ` -_.,()&@`.
    pub fn sanitize_for_display(input: &str) -> (r: String)
        ensures
            r@ == sanitized(input@),
    {
        let n = input.unicode_len();
        let mut out = String::new();
        let mut i: usize = 0;
        while i < n
            invariant
                n == input@.len(),
                i <= n,
                out@ == sanitized(input@.subrange(0, i as int)),
            decreases n - i,
        {
            let c = input.get_char(i);
            assert(input@.subrange(0, i + 1).drop_last() =~= input@.subrange(0, i as int));
            let punct = c == ' ' || c == '-' || c == '_' || c == '.' || c == ',' || c == '('
                || c == ')' || c == '&' || c == '@';
            if is_alphanumeric(c) || punct {
                out.append(input.substring_char(i, i + 1));
                assert(out@ =~= sanitized(input@.subrange(0, i + 1)));
            }
            i = i + 1;
        }
        assert(input@.subrange(0, n as int) =~= input@);
        out
    }

    /// The text with each single quote doubled, for a quoted store literal.
    pub fn escape_single_quotes(input: &str) -> (r: String)
        ensures
            r@ == replace_all(input@, "'"@, "''"@),
    {
        replace_text(input, "'", "''")
    }
}

/// `items` joined with `sep`.
fn join_texts(items: &[&str], sep: &str) -> (r: String)
    ensures
        r@ == joined(texts_of(items@), sep@),
{
    let n = items.len();
    let mut out = String::new();
    let mut i: usize = 0;
    while i < n
        invariant
            n == items@.len(),
            i <= n,
            out@ == joined(texts_of(items@.subrange(0, i as int)), sep@),
        decreases n - i,
    {
        assert(texts_of(items@.subrange(0, i + 1)).drop_last() =~= texts_of(items@.subrange(0, i as int)));
        assert(texts_of(items@.subrange(0, i + 1)).last() == items@[i as int]@);
        if i > 0 {
            out.append(sep);
        }
        out.append(items[i]);
        i = i + 1;
    }
    assert(items@.subrange(0, n as int) =~= items@);
    out
}

} // verus!
