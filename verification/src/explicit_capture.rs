//! Explicit X capture commands: which commands are admitted, and the post
//! identity a captured permalink names.

use vstd::prelude::*;
use crate::text::{is_digit, digit, find_char, find_char_exec, find_seq_from, find_seq_exec,
    find_any_from, find_any_exec, slice_chars, chars_of, chars_eq_str, string_of, lemma_find_any_from};
use crate::time::{Timestamp, parse_utc_datetime, utc_datetime_from_str};
use crate::social_sources::tagged_uuid;
use crate::ids::uuid_string;
use crate::text::extend_chars;
use crate::snapshot::{SnapshotError, snapshot_error_text};

verus! {

/// Explicit command refusal or persistence failure.
#[derive(Debug, Clone, Copy, PartialEq, Eq, Structural)]
pub enum ExplicitCaptureError {
    /// The command envelope or typed payload is malformed.
    Command,
    /// The command has unsupported provider or provenance facts.
    Refused,
    /// The selected account is absent.
    AccountUnavailable,
    /// The envelope tenant is not the account owner.
    TenantMismatch,
    /// No normalized X post matches the captured permalink.
    PostUnavailable,
    /// The persisted command cannot be serialized as JSON evidence.
    Serialize,
    /// The transaction query failed.
    Query,
    /// Source event publication failed.
    Source(SnapshotError),
}

/// What a capture command states, as plain values.
pub struct ExplicitCaptureRequest {
    /// Whether the capture provider is X.
    pub provider_is_x: bool,
    /// Whether the acquisition method is the browser extension.
    pub by_browser_extension: bool,
    /// Whether the saved authority is an explicit user capture.
    pub explicit_user_capture: bool,
    /// The captured post's original permalink.
    pub original_permalink: String,
    /// The capture instant's text, as the command carries it.
    pub captured_at: String,
    /// The command envelope's tenant.
    pub tenant_id: Option<String>,
}

pub open spec fn all_digits(s: Seq<char>) -> bool {
    forall|i: int| 0 <= i < s.len() ==> is_digit(#[trigger] s[i])
}

/// The first path segment after `status/`, cut at `/`, `?` or `#`.
pub open spec fn status_segment(after: Seq<char>) -> Seq<char> {
    match find_any_from(after, seq!['/', '?', '#'], 0) {
        Some(m) => after.subrange(0, m),
        None => after,
    }
}

/// The numeric post identity of an `x.com` or `www.x.com` status permalink.
pub open spec fn status_id_of(permalink: Seq<char>) -> Option<Seq<char>> {
    match find_seq_from(permalink, "://"@, 0) {
        None => None,
        Some(i) => {
            let rest = permalink.subrange(i + "://"@.len(), permalink.len() as int);
            match find_char(rest, '/') {
                None => None,
                Some(j) => {
                    let host = rest.subrange(0, j);
                    let path = rest.subrange(j + 1, rest.len() as int);
                    if host != "x.com"@ && host != "www.x.com"@ {
                        None
                    } else {
                        match find_seq_from(path, "status/"@, 0) {
                            None => None,
                            Some(k) => {
                                let id = status_segment(path.subrange(k + "status/"@.len(), path.len() as int));
                                if id.len() > 0 && all_digits(id) {
                                    Some(id)
                                } else {
                                    None
                                }
                            },
                        }
                    }
                },
            }
        },
    }
}

fn all_digits_exec(s: &Vec<char>) -> (r: bool)
    ensures
        r == all_digits(s@),
{
    let mut i: usize = 0;
    while i < s.len()
        invariant
            i <= s.len(),
            forall|k: int| 0 <= k < i ==> is_digit(#[trigger] s@[k]),
        decreases s.len() - i,
    {
        if !digit(s[i]) {
            return false;
        }
        i += 1;
    }
    true
}

/// Reads the post identity of a status permalink.
pub fn status_id(permalink: &str) -> (r: Option<String>)
    ensures
        match status_id_of(permalink@) {
            Some(id) => r matches Some(s) && s@ == id,
            None => r is None,
        },
{
    let text = chars_of(permalink);
    let scheme = chars_of("://");
    let i = match find_seq_exec(&text, &scheme) {
        Some(i) => i,
        None => return None,
    };
    let rest = slice_chars(&text, i + scheme.len(), text.len());
    let j = match find_char_exec(&rest, '/') {
        Some(j) => j,
        None => return None,
    };
    let host = slice_chars(&rest, 0, j);
    let path = slice_chars(&rest, j + 1, rest.len());
    if !chars_eq_str(&host, "x.com") && !chars_eq_str(&host, "www.x.com") {
        return None;
    }
    let marker = chars_of("status/");
    let k = match find_seq_exec(&path, &marker) {
        Some(k) => k,
        None => return None,
    };
    let after = slice_chars(&path, k + marker.len(), path.len());
    let mut stops: Vec<char> = Vec::new();
    stops.push('/');
    stops.push('?');
    stops.push('#');
    assert(stops@ =~= seq!['/', '?', '#']);
    let id = match find_any_exec(&after, &stops) {
        Some(m) => slice_chars(&after, 0, m),
        None => after,
    };
    if id.len() > 0 && all_digits_exec(&id) {
        Some(string_of(&id))
    } else {
        None
    }
}

/// Admits a capture command for an account: the command must be an X
/// browser capture by the user, the account must exist (`owner` is its
/// owner's internal identity), the envelope tenant must be `user:` and that
/// owner, the permalink must name a status, and the capture instant's text must
/// read as a UTC instant (`str::parse::<DateTime<Utc>>`).
/// On success, the post identity and the capture instant.
pub open spec fn admission_of(request: ExplicitCaptureRequest, owner: Option<u128>) -> Result<(Seq<char>, Timestamp), ExplicitCaptureError> {
    if !request.provider_is_x || !request.by_browser_extension || !request.explicit_user_capture {
        Err(ExplicitCaptureError::Refused)
    } else {
        match owner {
            None => Err(ExplicitCaptureError::AccountUnavailable),
            Some(o) => if !(request.tenant_id matches Some(t) && t@ == tagged_uuid("user:"@, o)) {
                Err(ExplicitCaptureError::TenantMismatch)
            } else {
                match status_id_of(request.original_permalink@) {
                    None => Err(ExplicitCaptureError::Refused),
                    Some(id) => match utc_datetime_from_str(request.captured_at@) {
                        None => Err(ExplicitCaptureError::Refused),
                        Some(at) => Ok((id, at)),
                    },
                }
            },
        }
    }
}

/// Checks a capture command against the selected account.
pub fn admit_capture(request: &ExplicitCaptureRequest, owner: Option<u128>) -> (r: Result<(String, Timestamp), ExplicitCaptureError>)
    ensures
        match admission_of(*request, owner) {
            Ok((id, at)) => r matches Ok((s, t)) && s@ == id && t == at,
            Err(e) => r == Err::<(String, Timestamp), ExplicitCaptureError>(e),
        },
{
    if !request.provider_is_x || !request.by_browser_extension || !request.explicit_user_capture {
        return Err(ExplicitCaptureError::Refused);
    }
    let o = match owner {
        Some(o) => o,
        None => return Err(ExplicitCaptureError::AccountUnavailable),
    };
    let mut expected = chars_of("user:");
    extend_chars(&mut expected, &uuid_string(o));
    let tenant_ok = match &request.tenant_id {
        Some(t) => chars_eq_str(&expected, t.as_str()),
        None => false,
    };
    if !tenant_ok {
        return Err(ExplicitCaptureError::TenantMismatch);
    }
    let id = match status_id(request.original_permalink.as_str()) {
        Some(id) => id,
        None => return Err(ExplicitCaptureError::Refused),
    };
    match parse_utc_datetime(request.captured_at.as_str()) {
        Some(at) => Ok((id, at)),
        None => Err(ExplicitCaptureError::Refused),
    }
}

/// What to do once the command's inbox claim and post lookup are known: a
/// replayed command (not claimed) is already applied; a claimed one publishes
/// the post's source, which must be normalized.
pub fn capture_target(claimed: bool, post_id: Option<u128>) -> (r: Result<Option<u128>, ExplicitCaptureError>)
    ensures
        !claimed ==> r == Ok::<Option<u128>, ExplicitCaptureError>(None),
        claimed ==> r == match post_id {
            Some(p) => Ok::<Option<u128>, ExplicitCaptureError>(Some(p)),
            None => Err(ExplicitCaptureError::PostUnavailable),
        },
{
    if !claimed {
        return Ok(None);
    }
    match post_id {
        Some(p) => Ok(Some(p)),
        None => Err(ExplicitCaptureError::PostUnavailable),
    }
}

impl ExplicitCaptureError {
    /// The error's display text; a source failure shows its own.
    pub fn message(&self) -> (r: &'static str)
        ensures
            match *self {
                ExplicitCaptureError::Command => r@ == "the capture command envelope is malformed"@,
                ExplicitCaptureError::Refused => r@ == "the explicit capture command is not an X browser capture"@,
                ExplicitCaptureError::AccountUnavailable => r@ == "the selected X account is unavailable"@,
                ExplicitCaptureError::TenantMismatch => r@ == "the explicit capture tenant does not own the selected account"@,
                ExplicitCaptureError::PostUnavailable => r@ == "the explicit capture post is not normalized"@,
                ExplicitCaptureError::Serialize => r@ == "the explicit capture command cannot be serialized"@,
                ExplicitCaptureError::Query => r@ == "the explicit capture persistence query failed"@,
                ExplicitCaptureError::Source(e) => r@ == snapshot_error_text(e),
            },
    {
        match self {
            ExplicitCaptureError::Command => "the capture command envelope is malformed",
            ExplicitCaptureError::Refused => "the explicit capture command is not an X browser capture",
            ExplicitCaptureError::AccountUnavailable => "the selected X account is unavailable",
            ExplicitCaptureError::TenantMismatch => "the explicit capture tenant does not own the selected account",
            ExplicitCaptureError::PostUnavailable => "the explicit capture post is not normalized",
            ExplicitCaptureError::Serialize => "the explicit capture command cannot be serialized",
            ExplicitCaptureError::Query => "the explicit capture persistence query failed",
            ExplicitCaptureError::Source(e) => e.message(),
        }
    }
}

} // verus!
