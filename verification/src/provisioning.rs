use vstd::prelude::*;
use vstd::utf8::{decode_utf8, valid_utf8};

use crate::text::{
    matches_at, occurs_in, replace_all, replace_all_matches, self_overlap_free, split_piece,
    split_pieces, lemma_split_after_key, lemma_split_single_match, first_match_from,
    lemma_split_at_first_match,
};

verus! {

#[verifier::external_type_specification]
#[verifier::external_body]
pub struct ExFromUtf8Error(std::string::FromUtf8Error);

/// The separator between the fields of a submitted form.
pub open spec fn field_separator() -> Seq<char> {
    seq!['&']
}

/// The key that introduces the network name in the form.
pub open spec fn ssid_key() -> Seq<char> {
    seq!['s', 's', 'i', 'd', '=']
}

/// The key that introduces the password in the form.
pub open spec fn password_key() -> Seq<char> {
    seq!['p', 'a', 's', 's', 'w', 'o', 'r', 'd', '=']
}

/// The marker in the portal page's template that the list of networks replaces.
pub open spec fn ssids_placeholder() -> Seq<char> {
    seq!['{', '{', 's', 's', 'i', 'd', 's', '}', '}']
}

/// The still-encoded network name and password of a submitted form: the
/// text after the first `ssid=` of the first `&`-field (up to any further
/// `ssid=`), and the text after the first `password=` of the second field
/// (up to any further `password=`). `None` when the form lacks one of them.
pub open spec fn form_fields(text: Seq<char>) -> Option<(Seq<char>, Seq<char>)> {
    let fields = split_pieces(text, field_separator());
    if fields.len() < 2 {
        None
    } else {
        let ssid_parts = split_pieces(fields[0], ssid_key());
        let password_parts = split_pieces(fields[1], password_key());
        if ssid_parts.len() < 2 || password_parts.len() < 2 {
            None
        } else {
            Some((ssid_parts[1], password_parts[1]))
        }
    }
}

/// The body a form with these (unescaped) values submits.
pub open spec fn form_body(ssid: Seq<char>, password: Seq<char>) -> Seq<char> {
    ssid_key() + ssid + field_separator() + password_key() + password
}

/// Why a submitted form yields no credentials.
#[derive(Debug)]
pub enum FormError {
    /// The body lacks the `&`-separated `ssid=` and `password=` fields.
    Malformed,
    /// A field's percent-escapes decode to bytes that are not UTF-8; says
    /// which field (the name is decoded first) and carries the decoder's error.
    BadEncoding(FormField, std::string::FromUtf8Error),
}

/// A field of the provisioning form.
#[derive(Debug, Clone, Copy, PartialEq, Eq, Structural)]
pub enum FormField {
    Ssid,
    Password,
}

/// The kind of a `FormError`, without the decoder's error value.
#[derive(Debug, Clone, Copy, PartialEq, Eq, Structural)]
pub enum FormFailure {
    Malformed,
    BadEncoding,
}

/// The kind of a form error.
pub open spec fn failure_of(e: FormError) -> FormFailure {
    match e {
        FormError::Malformed => FormFailure::Malformed,
        FormError::BadEncoding(_, _) => FormFailure::BadEncoding,
    }
}

impl FormError {
    /// The kind of this error.
    pub fn failure(&self) -> (f: FormFailure)
        ensures
            f == failure_of(*self),
    {
        match self {
            FormError::Malformed => FormFailure::Malformed,
            FormError::BadEncoding(_, _) => FormFailure::BadEncoding,
        }
    }
}

/// The network name and password entered in the provisioning portal.
pub struct WifiCredentials {
    pub ssid: String,
    pub password: String,
}

/// The text that `String::from_utf8_lossy` makes of these bytes.
pub uninterp spec fn utf8_lossy(bytes: Seq<u8>) -> Seq<char>;

/// The text that `urlencoding::decode` makes of this text, or `None` where
/// the decoded bytes are not UTF-8.
pub uninterp spec fn url_decoded(text: Seq<char>) -> Option<Seq<char>>;

/// The text that `format!("{:?}", ..)` makes of a list of strings.
pub uninterp spec fn debug_list_text(items: Seq<Seq<char>>) -> Seq<char>;

/// Calls `String::from_utf8_lossy`. Claimed: the result is the named
/// function of the bytes, and valid UTF-8 is decoded unchanged (as std's
/// documentation says). How invalid sequences are replaced is left to the name.
#[verifier::external_body]
fn lossy_text(bytes: &[u8]) -> (text: String)
    ensures
        text@ == utf8_lossy(bytes@),
        valid_utf8(bytes@) ==> text@ == decode_utf8(bytes@),
{
    String::from_utf8_lossy(bytes).into_owned()
}

/// Calls `urlencoding::decode`. Claimed: success and the decoded text are the
/// named function of the input, and a text without `%` comes back unchanged
/// (the crate's source returns the input itself when no `%` byte occurs).
#[verifier::external_body]
fn percent_decode(text: &str) -> (decoded: Result<String, std::string::FromUtf8Error>)
    ensures
        decoded is Ok <==> url_decoded(text@) is Some,
        decoded matches Ok(s) ==> url_decoded(text@) == Some(s@),
        !text@.contains('%') ==> decoded is Ok,
        decoded matches Ok(s) ==> (!text@.contains('%') ==> s@ == text@),
{
    match urlencoding::decode(text) {
        Ok(c) => Ok(c.into_owned()),
        Err(e) => Err(e),
    }
}

/// Calls `format!("{:?}", ..)` on the list. Claimed: the result is the named
/// function of the list's texts; the escaping rules of `Debug` are left to the name.
#[verifier::external_body]
fn debug_list(items: &Vec<String>) -> (text: String)
    ensures
        text@ == debug_list_text(items.deep_view()),
{
    format!("{:?}", items)
}

/// Splits a submitted form into its still-encoded network name and password.
pub fn split_wifi_form(text: &str) -> (fields: Option<(String, String)>)
    ensures
        match fields {
            Some((ssid, password)) => form_fields(text@) == Some((ssid@, password@)),
            None => form_fields(text@) is None,
        },
{
    proof {
        reveal_strlit("&");
        reveal_strlit("ssid=");
        reveal_strlit("password=");
        assert("&"@ =~= field_separator());
        assert("ssid="@ =~= ssid_key());
        assert("password="@ =~= password_key());
    }
    let second = match split_piece(text, "&", 1) {
        Some(t) => t,
        None => return None,
    };
    let first = match split_piece(text, "&", 0) {
        Some(t) => t,
        None => return None,
    };
    let ssid = match split_piece(first.as_str(), "ssid=", 1) {
        Some(t) => t,
        None => return None,
    };
    let password = match split_piece(second.as_str(), "password=", 1) {
        Some(t) => t,
        None => return None,
    };
    Some((ssid, password))
}

/// The form has both fields, and neither holds a percent-escape.
pub open spec fn fields_without_escapes(text: Seq<char>) -> bool {
    match form_fields(text) {
        Some((ssid, password)) => !ssid.contains('%') && !password.contains('%'),
        None => false,
    }
}

/// The form has both fields, and its network name does not decode.
pub open spec fn ssid_undecodable(text: Seq<char>) -> bool {
    match form_fields(text) {
        Some((ssid, _)) => url_decoded(ssid) is None,
        None => false,
    }
}

/// The outcome of decoding the two fields of a form.
pub open spec fn decoded_outcome(
    ssid: Option<Seq<char>>,
    password: Option<Seq<char>>,
) -> Result<(Seq<char>, Seq<char>), FormFailure> {
    match (ssid, password) {
        (Some(s), Some(p)) => Ok((s, p)),
        _ => Err(FormFailure::BadEncoding),
    }
}

/// What a submitted form text yields: its decoded network name and
/// password, or why there are none.
pub open spec fn form_outcome(text: Seq<char>) -> Result<(Seq<char>, Seq<char>), FormFailure> {
    match form_fields(text) {
        None => Err(FormFailure::Malformed),
        Some((ssid, password)) => decoded_outcome(url_decoded(ssid), url_decoded(password)),
    }
}

/// Combines the decoding results of the two fields into credentials; a
/// decoding error is passed on, the name's before the password's.
pub fn credentials_from_decoded(
    ssid: Result<String, std::string::FromUtf8Error>,
    password: Result<String, std::string::FromUtf8Error>,
) -> (creds: Result<WifiCredentials, FormError>)
    ensures
        match (ssid, password) {
            (Ok(s), Ok(p)) => creds matches Ok(c) && c.ssid@ == s@ && c.password@ == p@,
            (Err(e), _) => creds matches Err(FormError::BadEncoding(f, e2)) && f
                == FormField::Ssid && e2 == e,
            (Ok(_), Err(e)) => creds matches Err(FormError::BadEncoding(f, e2)) && f
                == FormField::Password && e2 == e,
        },
{
    match ssid {
        Err(e) => Err(FormError::BadEncoding(FormField::Ssid, e)),
        Ok(s) => match password {
            Err(e) => Err(FormError::BadEncoding(FormField::Password, e)),
            Ok(p) => Ok(WifiCredentials { ssid: s, password: p }),
        },
    }
}

/// Reads the credentials out of a submitted form text. Fields without `%`
/// come back exactly as they stand in the form. A decoding error is the
/// name's when the name does not decode, else the password's.
pub fn parse_wifi_text(text: &str) -> (creds: Result<WifiCredentials, FormError>)
    ensures
        match creds {
            Ok(c) => form_outcome(text@) == Ok::<(Seq<char>, Seq<char>), FormFailure>(
                (c.ssid@, c.password@),
            ),
            Err(e) => form_outcome(text@) == Err::<(Seq<char>, Seq<char>), FormFailure>(
                failure_of(e),
            ),
        },
        fields_without_escapes(text@) ==> (creds matches Ok(c) && form_fields(text@) == Some(
            (c.ssid@, c.password@),
        )),
        creds matches Err(FormError::BadEncoding(f, _)) ==> (f == FormField::Ssid
            <==> ssid_undecodable(text@)),
{
    match split_wifi_form(text) {
        None => Err(FormError::Malformed),
        Some((ssid, password)) => {
            let ssid_decoded = percent_decode(ssid.as_str());
            let password_decoded = percent_decode(password.as_str());
            credentials_from_decoded(ssid_decoded, password_decoded)
        },
    }
}

/// Reads the credentials out of the raw body of a submitted form. A body
/// that is valid UTF-8, with fields without `%`, yields its fields exactly.
/// A decoding error is the name's when the name does not decode, else the
/// password's.
pub fn parse_wifi_form(body: &[u8]) -> (creds: Result<WifiCredentials, FormError>)
    ensures
        match creds {
            Ok(c) => form_outcome(utf8_lossy(body@)) == Ok::<
                (Seq<char>, Seq<char>),
                FormFailure,
            >((c.ssid@, c.password@)),
            Err(e) => form_outcome(utf8_lossy(body@)) == Err::<
                (Seq<char>, Seq<char>),
                FormFailure,
            >(failure_of(e)),
        },
        valid_utf8(body@) && fields_without_escapes(decode_utf8(body@)) ==> (creds matches Ok(c)
            && form_fields(decode_utf8(body@)) == Some((c.ssid@, c.password@))),
        creds matches Err(FormError::BadEncoding(f, _)) ==> (f == FormField::Ssid
            <==> ssid_undecodable(utf8_lossy(body@))),
{
    let text = lossy_text(body);
    parse_wifi_text(text.as_str())
}

/// Fills the portal template: every `{{ssids}}` becomes `list_text`.
pub fn fill_portal_template(template: &str, list_text: &str) -> (page: String)
    ensures
        page@ == replace_all(template@, ssids_placeholder(), list_text@),
{
    proof {
        reveal_strlit("{{ssids}}");
        assert("{{ssids}}"@ =~= ssids_placeholder());
    }
    replace_all_matches(template, "{{ssids}}", list_text)
}

/// The portal page: the template with every `{{ssids}}` replaced by the
/// debug-formatted list of known networks.
pub fn render_portal_page(template: &str, ssids: &Vec<String>) -> (page: String)
    ensures
        page@ == replace_all(template@, ssids_placeholder(), debug_list_text(ssids.deep_view())),
{
    let list_text = debug_list(ssids);
    fill_portal_template(template, list_text.as_str())
}

/// `ssid=` cannot overlap itself.
proof fn lemma_ssid_key_overlap_free()
    ensures
        self_overlap_free(ssid_key()),
{
    let k = ssid_key();
    assert forall|j: int| 0 < j < k.len() implies #[trigger] k.subrange(j, k.len() as int)
        != k.subrange(0, k.len() - j) by {
        if j == 1 {
            assert(k.subrange(1, 5)[1] != k.subrange(0, 4)[1]);
        } else {
            assert(k.subrange(j, 5)[0] != k.subrange(0, 5 - j)[0]);
        }
    }
}

/// `password=` cannot overlap itself.
proof fn lemma_password_key_overlap_free()
    ensures
        self_overlap_free(password_key()),
{
    let k = password_key();
    assert forall|j: int| 0 < j < k.len() implies #[trigger] k.subrange(j, k.len() as int)
        != k.subrange(0, k.len() - j) by {
        assert(k.subrange(j, 9)[0] != k.subrange(0, 9 - j)[0]);
    }
}

/// Law: the form's fields split back out as they were submitted. A body
/// `ssid=<name>&password=<password>`, where neither value holds `&`, the name
/// holds no `ssid=` and the password no `password=`, has exactly that name
/// and password as its still-encoded fields. With the `%`-free clause of
/// `parse_wifi_text` and `parse_wifi_form`, values without `%` come back as
/// the credentials themselves.
pub proof fn lemma_form_roundtrip(ssid: Seq<char>, password: Seq<char>)
    requires
        !ssid.contains('&'),
        !password.contains('&'),
        !occurs_in(ssid, ssid_key()),
        !occurs_in(password, password_key()),
    ensures
        form_fields(form_body(ssid, password)) == Some((ssid, password)),
{
    let first = ssid_key() + ssid;
    let second = password_key() + password;
    let body = form_body(ssid, password);
    let sep = field_separator();
    let k = first.len() as int;
    assert(body =~= first + sep + second);
    assert(body[k] == '&');
    assert(body.subrange(k, k + 1) =~= sep);
    assert forall|j: int| j != k implies !#[trigger] matches_at(body, sep, j) by {
        if matches_at(body, sep, j) {
            assert(body.subrange(j, j + 1)[0] == body[j]);
            if j < 5 {
                assert(body[j] == ssid_key()[j]);
            } else if j < k {
                assert(body[j] == ssid[j - 5]);
                assert(ssid.contains(ssid[j - 5]));
            } else if j < k + 10 {
                assert(body[j] == password_key()[j - k - 1]);
            } else {
                assert(body[j] == password[j - k - 10]);
                assert(password.contains(password[j - k - 10]));
            }
        }
    }
    lemma_split_single_match(body, sep, k);
    assert(body.subrange(0, k) =~= first);
    assert(body.subrange(k + 1, body.len() as int) =~= second);
    lemma_ssid_key_overlap_free();
    lemma_password_key_overlap_free();
    lemma_split_after_key(ssid_key(), ssid);
    lemma_split_after_key(password_key(), password);
}

/// Law: a template without the `{{ssids}}` marker is served unchanged.
pub proof fn lemma_template_without_marker(template: Seq<char>, list_text: Seq<char>)
    requires
        !occurs_in(template, ssids_placeholder()),
    ensures
        replace_all(template, ssids_placeholder(), list_text) == template,
{
    crate::text::lemma_absent_pattern(template, ssids_placeholder(), list_text);
}

/// Law: the network name runs from the first `ssid=` to the next `ssid=`:
/// a first field `ssid=<name>ssid=<more>` yields `<name>`, whatever follows.
pub proof fn lemma_name_ends_at_next_key(name: Seq<char>, more: Seq<char>, password: Seq<char>)
    requires
        !(name + ssid_key() + more).contains('&'),
        !password.contains('&'),
        !occurs_in(password, password_key()),
        first_match_from(name + ssid_key() + more, ssid_key(), 0) == Some(name.len() as int),
    ensures
        form_fields(
            ssid_key() + name + ssid_key() + more + field_separator() + password_key() + password,
        ) == Some((name, password)),
{
    let rest = name + ssid_key() + more;
    let first = ssid_key() + rest;
    let second = password_key() + password;
    let body = ssid_key() + name + ssid_key() + more + field_separator() + password_key()
        + password;
    let sep = field_separator();
    let k = first.len() as int;
    assert(body =~= first + sep + second);
    assert(body.subrange(k, k + 1) =~= sep);
    assert forall|j: int| j != k implies !#[trigger] matches_at(body, sep, j) by {
        if matches_at(body, sep, j) {
            assert(body.subrange(j, j + 1)[0] == body[j]);
            if j < 5 {
                assert(body[j] == ssid_key()[j]);
            } else if j < k {
                assert(body[j] == rest[j - 5]);
                assert(rest.contains(rest[j - 5]));
            } else if j < k + 10 {
                assert(body[j] == password_key()[j - k - 1]);
            } else {
                assert(body[j] == password[j - k - 10]);
                assert(password.contains(password[j - k - 10]));
            }
        }
    }
    lemma_split_single_match(body, sep, k);
    assert(body.subrange(0, k) =~= first);
    assert(body.subrange(k + 1, body.len() as int) =~= second);
    lemma_password_key_overlap_free();
    lemma_split_after_key(password_key(), password);
    // the first field: a match of the key at 0, then the name up to the next key
    assert(first.subrange(0, 5) =~= ssid_key());
    assert(matches_at(first, ssid_key(), 0));
    lemma_split_at_first_match(first, ssid_key());
    assert(first.subrange(5, first.len() as int) =~= rest);
    assert(first.subrange(0, 0) =~= Seq::<char>::empty());
    lemma_split_at_first_match(rest, ssid_key());
    assert(rest.subrange(0, name.len() as int) =~= name);
}

/// Law: when both fields of a form decode, the credentials are exactly
/// their decodings, each field decoded on its own whatever the other holds.
pub proof fn lemma_outcome_decodes_both(
    text: Seq<char>,
    ssid: Seq<char>,
    password: Seq<char>,
    name: Seq<char>,
    secret: Seq<char>,
)
    requires
        form_fields(text) == Some((ssid, password)),
        url_decoded(ssid) == Some(name),
        url_decoded(password) == Some(secret),
    ensures
        form_outcome(text) == Ok::<(Seq<char>, Seq<char>), FormFailure>((name, secret)),
{
}

/// Law: a form that lacks its `ssid=` or `password=` field is malformed.
pub proof fn lemma_outcome_malformed(text: Seq<char>)
    requires
        form_fields(text) is None,
    ensures
        form_outcome(text) == Err::<(Seq<char>, Seq<char>), FormFailure>(FormFailure::Malformed),
{
}

/// Law: a form with a field that does not decode is badly encoded, and
/// yields no credentials.
pub proof fn lemma_outcome_bad_encoding(text: Seq<char>, ssid: Seq<char>, password: Seq<char>)
    requires
        form_fields(text) == Some((ssid, password)),
        url_decoded(ssid) is None || url_decoded(password) is None,
    ensures
        form_outcome(text) == Err::<(Seq<char>, Seq<char>), FormFailure>(
            FormFailure::BadEncoding,
        ),
{
}

} // verus!
