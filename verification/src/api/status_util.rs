//! Request bodies of the status endpoints, and the rules that read them.

use crate::db::models::{copy_opt, flagged, position, StatusFromDb, StatusStore, StatusView};
use crate::text::{
    chars_eq, chars_of, opt_str, opt_view, parse_i64, parsed_i64, split, split_chars, str_eq,
    string_of, subvec, views,
};
use crate::time::Timestamp;
use vstd::prelude::*;

verus! {

/// The administrator's identifier.
pub const ADMIN_DID: &'static str = "did:plc:xbtmt2zjwlrfegqvch7fboei";

/// Whether `did` is the administrator.
pub fn is_admin(did: &str) -> (b: bool)
    ensures
        b == (did@ == ADMIN_DID@),
{
    str_eq(did, ADMIN_DID)
}

/// The request to set a status.
#[derive(Debug, Clone)]
pub struct StatusForm {
    pub status: String,
    pub text: Option<String>,
    /// How long the status lasts: a number and a unit, as in `30m` or `1h`.
    pub expires_in: Option<String>,
}

/// The request to delete one status.
#[derive(Debug, Clone)]
pub struct DeleteRequest {
    pub uri: String,
}

/// The request to hide or show a status.
#[derive(Debug, Clone)]
pub struct HideStatusRequest {
    pub uri: String,
    pub hidden: bool,
}

/// The longest duration that can be asked for, in seconds.
pub const MAX_DURATION_SECS: i64 = 9223372036854775;

/// The seconds in one unit of duration: minute, hour, day or week.
pub open spec fn unit_seconds(unit: char) -> Option<int> {
    if unit == 'm' {
        Some(60int)
    } else if unit == 'h' {
        Some(3600int)
    } else if unit == 'd' {
        Some(86400int)
    } else if unit == 'w' {
        Some(604800int)
    } else {
        None
    }
}

/// The seconds that a duration text stands for: a decimal number followed
/// by one unit letter. `None` where the text is no such duration or the
/// duration is longer than `MAX_DURATION_SECS` either way.
pub open spec fn duration_seconds(s: Seq<char>) -> Option<i64> {
    if s.len() == 0 {
        None
    } else {
        match (parsed_i64(s.drop_last()), unit_seconds(s.last())) {
            (Some(n), Some(unit)) => if -MAX_DURATION_SECS <= n * unit <= MAX_DURATION_SECS {
                Some((n * unit) as i64)
            } else {
                None
            },
            _ => None,
        }
    }
}

/// Reads a duration such as `30m`, `1h`, `1d` or `2w`, in seconds.
pub fn parse_duration(duration_str: &str) -> (r: Option<i64>)
    ensures
        r == duration_seconds(duration_str@),
{
    let chars = chars_of(duration_str);
    let n = chars.len();
    if n == 0 {
        return None;
    }
    let unit: i128 = match chars[n - 1] {
        'm' => 60,
        'h' => 3600,
        'd' => 86400,
        'w' => 604800,
        _ => {
            return None;
        },
    };
    let number = subvec(&chars, 0, n - 1);
    match parse_i64(&number) {
        Some(count) => {
            let total: i128 = count as i128 * unit;
            if -(MAX_DURATION_SECS as i128) <= total && total <= MAX_DURATION_SECS as i128 {
                Some(total as i64)
            } else {
                None
            }
        },
        None => None,
    }
}

/// The mathematical value of a [`StatusForm`].
pub struct StatusFormView {
    pub status: Seq<char>,
    pub text: Option<Seq<char>>,
    pub expires_in: Option<Seq<char>>,
}

impl View for StatusForm {
    type V = StatusFormView;

    open spec fn view(&self) -> StatusFormView {
        StatusFormView {
            status: self.status@,
            text: opt_view(self.text),
            expires_in: opt_view(self.expires_in),
        }
    }
}

/// When a status set at `now` expires: after the duration asked for, where
/// one is asked for, it can be read, and the time that it leads to can be
/// represented.
pub open spec fn form_expiry(expires_in: Option<Seq<char>>, now: Timestamp) -> Option<
    Timestamp,
> {
    match expires_in {
        Some(text) => match duration_seconds(text) {
            Some(d) => if i64::MIN <= now.secs + d <= i64::MAX {
                Some(Timestamp { secs: (now.secs + d) as i64, nanos: now.nanos })
            } else {
                None
            },
            None => None,
        },
        None => None,
    }
}

/// The status that a form sets for `did` under `uri` at `now`.
pub open spec fn form_status(
    uri: Seq<char>,
    did: Seq<char>,
    form: StatusFormView,
    now: Timestamp,
) -> StatusView {
    StatusView {
        uri,
        author_did: did,
        status: form.status,
        text: form.text,
        started_at: now,
        expires_at: form_expiry(form.expires_in, now),
        indexed_at: now,
        handle: None,
    }
}

/// Builds the status that a form sets for `did` under `uri` at `now`.
pub fn status_from_form(uri: &str, did: &str, form: &StatusForm, now: Timestamp) -> (s:
    StatusFromDb)
    ensures
        s@ == form_status(uri@, did@, form@, now),
{
    let expires_at = match &form.expires_in {
        Some(text) => match parse_duration(text.as_str()) {
            Some(d) => match now.secs.checked_add(d) {
                Some(secs) => Some(Timestamp { secs, nanos: now.nanos }),
                None => None,
            },
            None => None,
        },
        None => None,
    };
    StatusFromDb {
        uri: uri.to_owned(),
        author_did: did.to_owned(),
        status: form.status.clone(),
        text: copy_opt(&form.text),
        started_at: now,
        expires_at,
        indexed_at: now,
        handle: None,
    }
}

/// Why a status was not deleted.
#[derive(Debug, Clone, Copy, PartialEq, Eq, Structural)]
pub enum DeleteError {
    /// The caller is not signed in.
    NotAuthenticated,
    /// The URI does not have the parts of a record URI.
    InvalidUri,
    /// The URI names a record of someone else.
    NotOwner,
}

impl DeleteError {
    /// The HTTP status code that the error is answered with.
    pub fn status_code(&self) -> (code: u16)
        ensures
            code == match self {
                DeleteError::NotAuthenticated => 401u16,
                DeleteError::InvalidUri => 400u16,
                DeleteError::NotOwner => 403u16,
            },
    {
        match self {
            DeleteError::NotAuthenticated => 401,
            DeleteError::InvalidUri => 400,
            DeleteError::NotOwner => 403,
        }
    }

    /// The error in words.
    pub fn message(&self) -> (m: &'static str)
        ensures
            m@ == match self {
                DeleteError::NotAuthenticated => "Not authenticated"@,
                DeleteError::InvalidUri => "Invalid status URI format"@,
                DeleteError::NotOwner => "You can only delete your own statuses"@,
            },
    {
        match self {
            DeleteError::NotAuthenticated => "Not authenticated",
            DeleteError::InvalidUri => "Invalid status URI format",
            DeleteError::NotOwner => "You can only delete your own statuses",
        }
    }
}

/// The record key of the status that `did` may delete under `uri`: the last
/// of the URI's parts, where the URI has at least five parts between
/// slashes and the third is `did`.
pub open spec fn delete_target(did: Option<Seq<char>>, uri: Seq<char>) -> Result<
    Seq<char>,
    DeleteError,
> {
    let parts = split(uri, '/');
    match did {
        None => Err(DeleteError::NotAuthenticated),
        Some(d) => if parts.len() < 5 {
            Err(DeleteError::InvalidUri)
        } else if parts[2] != d {
            Err(DeleteError::NotOwner)
        } else {
            Ok(parts.last())
        },
    }
}

/// The view of the result of a check.
pub open spec fn target_view(r: Result<String, DeleteError>) -> Result<Seq<char>, DeleteError> {
    match r {
        Ok(rkey) => Ok(rkey@),
        Err(e) => Err(e),
    }
}

/// Checks a request to delete a status, and gives the record key of the
/// status to delete.
pub fn check_delete(did: Option<&str>, req: &DeleteRequest) -> (r: Result<String, DeleteError>)
    ensures
        target_view(r) == delete_target(opt_str(did), req.uri@),
{
    match did {
        None => Err(DeleteError::NotAuthenticated),
        Some(d) => {
            let uri = chars_of(req.uri.as_str());
            let parts = split_chars(&uri, '/');
            if parts.len() < 5 {
                return Err(DeleteError::InvalidUri);
            }
            let owner = chars_of(d);
            if !chars_eq(&parts[2], &owner) {
                return Err(DeleteError::NotOwner);
            }
            let last = &parts[parts.len() - 1];
            let rkey = string_of(last, 0, last.len());
            assert(last@.subrange(0, last@.len() as int) =~= last@);
            Ok(rkey)
        },
    }
}

/// Why the moderation flag of a status was not set.
#[derive(Debug, Clone, Copy, PartialEq, Eq, Structural)]
pub enum HideError {
    /// The caller is not signed in.
    NotAuthenticated,
    /// The caller is not the administrator.
    Forbidden,
    /// There is no status with that URI.
    NotFound,
}

impl HideError {
    /// The HTTP status code that the error is answered with.
    pub fn status_code(&self) -> (code: u16)
        ensures
            code == match self {
                HideError::NotAuthenticated => 401u16,
                HideError::Forbidden => 403u16,
                HideError::NotFound => 404u16,
            },
    {
        match self {
            HideError::NotAuthenticated => 401,
            HideError::Forbidden => 403,
            HideError::NotFound => 404,
        }
    }

    /// The error in words.
    pub fn message(&self) -> (m: &'static str)
        ensures
            m@ == match self {
                HideError::NotAuthenticated => "Not authenticated"@,
                HideError::Forbidden => "Admin access required"@,
                HideError::NotFound => "Status not found"@,
            },
    {
        match self {
            HideError::NotAuthenticated => "Not authenticated",
            HideError::Forbidden => "Admin access required",
            HideError::NotFound => "Status not found",
        }
    }
}

/// What the administrator is told after the flag was set.
pub open spec fn hide_message(hidden: bool) -> Seq<char> {
    if hidden {
        "Status hidden"@
    } else {
        "Status unhidden"@
    }
}

/// Hides or shows a status. Only the administrator may; anyone else leaves
/// the store as it is.
pub fn hide_status(store: &mut StatusStore, did: Option<&str>, req: &HideStatusRequest) -> (r:
    Result<&'static str, HideError>)
    requires
        old(store).wf(),
    ensures
        final(store).wf(),
        match did {
            None => r matches Err(e) && e == HideError::NotAuthenticated && final(store)@ == old(
                store,
            )@,
            Some(d) => if d@ != ADMIN_DID@ {
                r matches Err(e) && e == HideError::Forbidden && final(store)@ == old(store)@
            } else {
                &&& final(store)@ == flagged(old(store)@, req.uri@, req.hidden)
                &&& match position(old(store)@, req.uri@) {
                    Some(_) => r matches Ok(m) && m@ == hide_message(req.hidden),
                    None => r matches Err(e) && e == HideError::NotFound,
                }
            },
        },
{
    match did {
        None => Err(HideError::NotAuthenticated),
        Some(d) => {
            if !is_admin(d) {
                return Err(HideError::Forbidden);
            }
            if store.set_hidden(req.uri.as_str(), req.hidden) {
                Ok(if req.hidden { "Status hidden" } else { "Status unhidden" })
            } else {
                Err(HideError::NotFound)
            }
        },
    }
}

} // verus!
