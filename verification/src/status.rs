//! Download status: stall detection, the normalised status names shown to the
//! user, their sort priority, their styles, and which actions they allow.

use vstd::prelude::*;
use crate::clock::{
    at_least_seconds_between, nanos_between, now_instant,
    parse_rfc3339, rfc3339_instant,
};
use crate::text::{
    all_ascii, append_chars, ascii_lower, ascii_upper_char, char_to_uppercase, is_ascii_char, occurs_at, opt_str_view, chars_of, contains_seq, lowercase_of, replace_all,
    starts_with_seq, str_contains, str_eq, str_replace, str_starts_with, string_from_chars,
    to_lowercase, uppercase_of_char,
};

verus! {

/// The status name shown for a raw status reported by the service.
pub open spec fn normalized_status(s: Seq<char>) -> Seq<char> {
    let l = lowercase_of(s);
    if l == "expired"@ {
        "Expired"@
    } else if contains_seq(l, "stalled"@) {
        "Stalled"@
    } else if l == "inactive"@ {
        "Inactive"@
    } else if l == "stopped seeding"@ {
        "Paused"@
    } else if contains_seq(l, "seeding"@) || contains_seq(l, "uploading"@) || l == "queuedup"@ {
        "Seeding"@
    } else if contains_seq(l, "queued"@) && !contains_seq(l, "queuedup"@) {
        "Queued"@
    } else if l == "cached"@ {
        "Cached"@
    } else if l == "completed"@ {
        "Completed"@
    } else if l == "downloading"@ || l == "active"@ || contains_seq(l, "downloading"@) || l
        == "metadl"@ || l == "checkingresumedata"@ || l == "checking"@ || contains_seq(
        l,
        "checking"@,
    ) || l == "allocating"@ {
        "Downloading"@
    } else if l == "paused"@ || l == "stopped"@ || contains_seq(l, "stopped"@) {
        "Paused"@
    } else if contains_seq(l, "error"@) || l == "failed"@ || l == "missingfiles"@ || l
        == "reported missing"@ || starts_with_seq(l, "failed"@) {
        "Failed"@
    } else if s.len() == 0 {
        "Unknown"@
    } else {
        uppercase_of_char(s[0]) + s.drop_first()
    }
}

/// A raw status whose lower case contains `checking` is shown as `Downloading`, unless
/// it also names a stall, seeding, uploading or a queue (which are shown as such). In
/// particular a service reporting `checking` shows the row as downloading.
pub proof fn lemma_checking_shown_downloading(s: Seq<char>)
    requires
        contains_seq(lowercase_of(s), "checking"@),
        !contains_seq(lowercase_of(s), "stalled"@),
        !contains_seq(lowercase_of(s), "seeding"@),
        !contains_seq(lowercase_of(s), "uploading"@),
        !contains_seq(lowercase_of(s), "queued"@),
    ensures
        normalized_status(s) == "Downloading"@,
{
    let l = lowercase_of(s);
    reveal_strlit("checking");
    reveal_strlit("expired");
    reveal_strlit("inactive");
    reveal_strlit("stopped seeding");
    reveal_strlit("queuedup");
    reveal_strlit("cached");
    reveal_strlit("completed");
    reveal_strlit("queued");
    let i = choose|i: int| occurs_at(l, "checking"@, i);
    assert(l.subrange(i, i + 8) == "checking"@);
    assert(l[i] == 'c') by {
        assert(l.subrange(i, i + 8)[0] == "checking"@[0]);
    }
    assert(l[i + 1] == 'h') by {
        assert(l.subrange(i, i + 8)[1] == "checking"@[1]);
    }
    assert(l[i + 7] == 'g') by {
        assert(l.subrange(i, i + 8)[7] == "checking"@[7]);
    }
    assert(l != "expired"@);
    assert(l != "inactive"@);
    assert(l != "cached"@);
    assert(l != "completed"@) by {
        if l == "completed"@ {
            assert(i == 0 || i == 1);
        }
    }
    assert(l != "queuedup"@) by {
        if l == "queuedup"@ {
            assert(i == 0);
        }
    }
    assert(l != "stopped seeding"@) by {
        if l == "stopped seeding"@ {
            assert(0 <= i <= 7);
        }
    }
}

/// The raw statuses the service uses for each state, in any letter case, are shown
/// under that state's name: paused and stopped as `Paused`, completed as `Completed`,
/// cached as `Cached`, expired as `Expired`, inactive as `Inactive`, failed as
/// `Failed`, and active, metaDL and allocating as `Downloading`.
pub proof fn lemma_service_statuses_shown(s: Seq<char>)
    ensures
        lowercase_of(s) == "paused"@ || lowercase_of(s) == "stopped"@ ==> normalized_status(s)
            == "Paused"@,
        lowercase_of(s) == "completed"@ ==> normalized_status(s) == "Completed"@,
        lowercase_of(s) == "cached"@ ==> normalized_status(s) == "Cached"@,
        lowercase_of(s) == "expired"@ ==> normalized_status(s) == "Expired"@,
        lowercase_of(s) == "inactive"@ ==> normalized_status(s) == "Inactive"@,
        lowercase_of(s) == "failed"@ ==> normalized_status(s) == "Failed"@,
        lowercase_of(s) == "active"@ || lowercase_of(s) == "metadl"@ || lowercase_of(s)
            == "allocating"@ ==> normalized_status(s) == "Downloading"@,
{
    let l = lowercase_of(s);
    reveal_strlit("expired");
    reveal_strlit("stalled");
    reveal_strlit("inactive");
    reveal_strlit("stopped seeding");
    reveal_strlit("seeding");
    reveal_strlit("uploading");
    reveal_strlit("queuedup");
    reveal_strlit("queued");
    reveal_strlit("cached");
    reveal_strlit("completed");
    reveal_strlit("downloading");
    reveal_strlit("active");
    reveal_strlit("metadl");
    reveal_strlit("checkingresumedata");
    reveal_strlit("checking");
    reveal_strlit("allocating");
    reveal_strlit("paused");
    reveal_strlit("stopped");
    reveal_strlit("error");
    reveal_strlit("failed");
    reveal_strlit("missingfiles");
    reveal_strlit("reported missing");
    assert("expired"@.len() == 7);
    assert("stalled"@.len() == 7);
    assert("inactive"@.len() == 8);
    assert("stopped seeding"@.len() == 15);
    assert("seeding"@.len() == 7);
    assert("uploading"@.len() == 9);
    assert("queuedup"@.len() == 8);
    assert("queued"@.len() == 6);
    assert("cached"@.len() == 6);
    assert("completed"@.len() == 9);
    assert("downloading"@.len() == 11);
    assert("active"@.len() == 6);
    assert("metadl"@.len() == 6);
    assert("checkingresumedata"@.len() == 18);
    assert("checking"@.len() == 8);
    assert("allocating"@.len() == 10);
    assert("paused"@.len() == 6);
    assert("stopped"@.len() == 7);
    assert("error"@.len() == 5);
    assert("failed"@.len() == 6);
    assert("missingfiles"@.len() == 12);
    assert("reported missing"@.len() == 16);
    if l == "paused"@ {
        lemma_absent_char(l, "stalled"@, 3);
        lemma_absent_char(l, "seeding"@, 5);
        lemma_absent_char(l, "uploading"@, 2);
        lemma_absent_char(l, "queued"@, 0);
        assert("paused"@[0] != "active"@[0] && "paused"@[0] != "metadl"@[0] && "paused"@[0] != "cached"@[0]);
    } else if l == "stopped"@ {
        lemma_absent_char(l, "stalled"@, 2);
        lemma_absent_char(l, "seeding"@, 4);
        lemma_absent_char(l, "queued"@, 0);
        assert("stopped"@[0] != "expired"@[0]);
    } else if l == "completed"@ {
        lemma_absent_char(l, "stalled"@, 2);
        lemma_absent_char(l, "seeding"@, 6);
        lemma_absent_char(l, "uploading"@, 8);
        lemma_absent_char(l, "queued"@, 0);
    } else if l == "cached"@ {
        lemma_absent_char(l, "stalled"@, 0);
        lemma_absent_char(l, "seeding"@, 0);
        lemma_absent_char(l, "uploading"@, 0);
        lemma_absent_char(l, "queued"@, 0);
    } else if l == "inactive"@ {
        lemma_absent_char(l, "stalled"@, 0);
    } else if l == "failed"@ || l == "active"@ || l == "metadl"@ || l == "allocating"@ {
        lemma_absent_char(l, "stalled"@, 0);
        lemma_absent_char(l, "seeding"@, 0);
        lemma_absent_char(l, "uploading"@, 0);
        lemma_absent_char(l, "queued"@, 0);
        assert("failed"@[0] != "active"@[0] && "failed"@[0] != "metadl"@[0] && "failed"@[0] != "cached"@[0] && "failed"@[0] != "paused"@[0]);
        assert("active"@[0] != "metadl"@[0] && "active"@[0] != "cached"@[0] && "active"@[0] != "queued"@[0]);
        assert("metadl"@[0] != "cached"@[0] && "metadl"@[0] != "queued"@[0]);
    }
}

fn lit(s: &str) -> (r: String)
    ensures
        r@ == s@,
{
    String::from_str(s)
}

/// The status name shown for a raw status: one of the fixed names (`Expired`,
/// `Stalled`, `Inactive`, `Paused`, `Seeding`, `Queued`, `Cached`, `Completed`,
/// `Downloading`, `Failed`, `Unknown`), or the raw status with its first character
/// in upper case.
pub fn normalize_status(status: &str) -> (r: String)
    ensures
        r@ == normalized_status(status@),
{
    let lower = to_lowercase(status);
    let l = lower.as_str();
    if str_eq(l, "expired") {
        return lit("Expired");
    }
    if str_contains(l, "stalled") {
        return lit("Stalled");
    }
    if str_eq(l, "inactive") {
        return lit("Inactive");
    }
    if str_eq(l, "stopped seeding") {
        return lit("Paused");
    }
    if str_contains(l, "seeding") || str_contains(l, "uploading") || str_eq(l, "queuedup") {
        return lit("Seeding");
    }
    if str_contains(l, "queued") && !str_contains(l, "queuedup") {
        return lit("Queued");
    }
    if str_eq(l, "cached") {
        return lit("Cached");
    }
    if str_eq(l, "completed") {
        return lit("Completed");
    }
    if str_eq(l, "downloading") || str_eq(l, "active") || str_contains(l, "downloading") || str_eq(
        l,
        "metadl",
    ) || str_eq(l, "checkingresumedata") || str_eq(l, "checking") || str_contains(l, "checking")
        || str_eq(l, "allocating") {
        return lit("Downloading");
    }
    if str_eq(l, "paused") || str_eq(l, "stopped") || str_contains(l, "stopped") {
        return lit("Paused");
    }
    if str_contains(l, "error") || str_eq(l, "failed") || str_eq(l, "missingfiles") || str_eq(
        l,
        "reported missing",
    ) || str_starts_with(l, "failed") {
        return lit("Failed");
    }
    let c = chars_of(status);
    if c.len() == 0 {
        return lit("Unknown");
    }
    let first = char_to_uppercase(c[0]);
    let mut out = chars_of(first.as_str());
    let mut rest: Vec<char> = Vec::new();
    let mut k: usize = 1;
    while k < c.len()
        invariant
            1 <= k <= c@.len(),
            rest@ == c@.subrange(1, k as int),
        decreases c@.len() - k,
    {
        rest.push(c[k]);
        k = k + 1;
        assert(rest@ =~= c@.subrange(1, k as int));
    }
    append_chars(&mut out, &rest);
    assert(c@.subrange(1, c@.len() as int) =~= status@.drop_first());
    string_from_chars(&out)
}


proof fn lemma_absent_char(hay: Seq<char>, needle: Seq<char>, j: int)
    requires
        0 <= j < needle.len(),
        forall|i: int| 0 <= i < hay.len() ==> hay[i] != needle[j],
    ensures
        !contains_seq(hay, needle),
{
    if contains_seq(hay, needle) {
        let i = choose|i: int| occurs_at(hay, needle, i);
        assert(hay.subrange(i, i + needle.len())[j] == needle[j]);
        assert(hay[i + j] == needle[j]);
    }
}

proof fn lemma_name_stable_expired()
    ensures
        normalized_status("Expired"@) == "Expired"@,
{
    reveal_strlit("Expired");
    reveal_strlit("active");
    reveal_strlit("allocating");
    reveal_strlit("cached");
    reveal_strlit("checking");
    reveal_strlit("checkingresumedata");
    reveal_strlit("completed");
    reveal_strlit("downloading");
    reveal_strlit("error");
    reveal_strlit("expired");
    reveal_strlit("failed");
    reveal_strlit("inactive");
    reveal_strlit("metadl");
    reveal_strlit("missingfiles");
    reveal_strlit("paused");
    reveal_strlit("queued");
    reveal_strlit("queuedup");
    reveal_strlit("reported missing");
    reveal_strlit("seeding");
    reveal_strlit("stalled");
    reveal_strlit("stopped");
    reveal_strlit("stopped seeding");
    reveal_strlit("uploading");
    assert(lowercase_of("Expired"@) == "expired"@) by {
        reveal(lowercase_of);
        assert(ascii_lower("Expired"@) =~= "expired"@);
    }
    lemma_absent_char("expired"@, "stalled"@, 0);
    lemma_absent_char("expired"@, "seeding"@, 0);
    lemma_absent_char("expired"@, "queued"@, 0);
    lemma_absent_char("expired"@, "stopped"@, 0);
    lemma_absent_char("expired"@, "error"@, 3);
    assert("expired"@.len() != "inactive"@.len());
    assert("expired"@.len() != "stopped seeding"@.len());
    assert("expired"@.len() != "queuedup"@.len());
    assert("expired"@.len() != "cached"@.len());
    assert("expired"@.len() != "completed"@.len());
    assert("expired"@.len() != "downloading"@.len());
    assert("expired"@.len() != "active"@.len());
    assert("expired"@.len() != "metadl"@.len());
    assert("expired"@.len() != "checkingresumedata"@.len());
    assert("expired"@.len() != "checking"@.len());
    assert("expired"@.len() != "allocating"@.len());
    assert("expired"@.len() != "paused"@.len());
    assert("expired"@[0] != "stopped"@[0]);
    assert("expired"@.len() != "failed"@.len());
    assert("expired"@.len() != "missingfiles"@.len());
    assert("expired"@.len() != "reported missing"@.len());
    assert("expired"@[0] != "failed"@[0]);
}

proof fn lemma_name_stable_stalled()
    ensures
        normalized_status("Stalled"@) == "Stalled"@,
{
    reveal_strlit("Stalled");
    reveal_strlit("active");
    reveal_strlit("allocating");
    reveal_strlit("cached");
    reveal_strlit("checking");
    reveal_strlit("checkingresumedata");
    reveal_strlit("completed");
    reveal_strlit("downloading");
    reveal_strlit("error");
    reveal_strlit("expired");
    reveal_strlit("failed");
    reveal_strlit("inactive");
    reveal_strlit("metadl");
    reveal_strlit("missingfiles");
    reveal_strlit("paused");
    reveal_strlit("queued");
    reveal_strlit("queuedup");
    reveal_strlit("reported missing");
    reveal_strlit("seeding");
    reveal_strlit("stalled");
    reveal_strlit("stopped");
    reveal_strlit("stopped seeding");
    reveal_strlit("uploading");
    assert(lowercase_of("Stalled"@) == "stalled"@) by {
        reveal(lowercase_of);
        assert(ascii_lower("Stalled"@) =~= "stalled"@);
    }
    assert("stalled"@.subrange(0, 7) =~= "stalled"@);
    assert(occurs_at("stalled"@, "stalled"@, 0));
    lemma_absent_char("stalled"@, "seeding"@, 4);
    lemma_absent_char("stalled"@, "queued"@, 0);
    lemma_absent_char("stalled"@, "stopped"@, 2);
    lemma_absent_char("stalled"@, "error"@, 1);
    assert("stalled"@[0] != "expired"@[0]);
    assert("stalled"@.len() != "inactive"@.len());
    assert("stalled"@.len() != "stopped seeding"@.len());
    assert("stalled"@.len() != "queuedup"@.len());
    assert("stalled"@.len() != "cached"@.len());
    assert("stalled"@.len() != "completed"@.len());
    assert("stalled"@.len() != "downloading"@.len());
    assert("stalled"@.len() != "active"@.len());
    assert("stalled"@.len() != "metadl"@.len());
    assert("stalled"@.len() != "checkingresumedata"@.len());
    assert("stalled"@.len() != "checking"@.len());
    assert("stalled"@.len() != "allocating"@.len());
    assert("stalled"@.len() != "paused"@.len());
    assert("stalled"@[2] != "stopped"@[2]);
    assert("stalled"@.len() != "failed"@.len());
    assert("stalled"@.len() != "missingfiles"@.len());
    assert("stalled"@.len() != "reported missing"@.len());
    assert("stalled"@[0] != "failed"@[0]);
}

proof fn lemma_name_stable_inactive()
    ensures
        normalized_status("Inactive"@) == "Inactive"@,
{
    reveal_strlit("Inactive");
    reveal_strlit("active");
    reveal_strlit("allocating");
    reveal_strlit("cached");
    reveal_strlit("checking");
    reveal_strlit("checkingresumedata");
    reveal_strlit("completed");
    reveal_strlit("downloading");
    reveal_strlit("error");
    reveal_strlit("expired");
    reveal_strlit("failed");
    reveal_strlit("inactive");
    reveal_strlit("metadl");
    reveal_strlit("missingfiles");
    reveal_strlit("paused");
    reveal_strlit("queued");
    reveal_strlit("queuedup");
    reveal_strlit("reported missing");
    reveal_strlit("seeding");
    reveal_strlit("stalled");
    reveal_strlit("stopped");
    reveal_strlit("stopped seeding");
    reveal_strlit("uploading");
    assert(lowercase_of("Inactive"@) == "inactive"@) by {
        reveal(lowercase_of);
        assert(ascii_lower("Inactive"@) =~= "inactive"@);
    }
    lemma_absent_char("inactive"@, "stalled"@, 0);
    lemma_absent_char("inactive"@, "seeding"@, 0);
    lemma_absent_char("inactive"@, "queued"@, 0);
    lemma_absent_char("inactive"@, "queuedup"@, 0);
    lemma_absent_char("inactive"@, "checking"@, 1);
    lemma_absent_char("inactive"@, "stopped"@, 0);
    lemma_absent_char("inactive"@, "error"@, 1);
    assert("inactive"@.len() != "expired"@.len());
    assert("inactive"@.len() != "stopped seeding"@.len());
    assert("inactive"@[0] != "queuedup"@[0]);
    assert("inactive"@.len() != "cached"@.len());
    assert("inactive"@.len() != "completed"@.len());
    assert("inactive"@.len() != "downloading"@.len());
    assert("inactive"@.len() != "active"@.len());
    assert("inactive"@.len() != "metadl"@.len());
    assert("inactive"@.len() != "checkingresumedata"@.len());
    assert("inactive"@[0] != "checking"@[0]);
    assert("inactive"@.len() != "allocating"@.len());
    assert("inactive"@.len() != "paused"@.len());
    assert("inactive"@.len() != "stopped"@.len());
    assert("inactive"@.len() != "failed"@.len());
    assert("inactive"@.len() != "missingfiles"@.len());
    assert("inactive"@.len() != "reported missing"@.len());
    assert("inactive"@[0] != "failed"@[0]);
}

proof fn lemma_name_stable_paused()
    ensures
        normalized_status("Paused"@) == "Paused"@,
{
    reveal_strlit("Paused");
    reveal_strlit("active");
    reveal_strlit("allocating");
    reveal_strlit("cached");
    reveal_strlit("checking");
    reveal_strlit("checkingresumedata");
    reveal_strlit("completed");
    reveal_strlit("downloading");
    reveal_strlit("error");
    reveal_strlit("expired");
    reveal_strlit("failed");
    reveal_strlit("inactive");
    reveal_strlit("metadl");
    reveal_strlit("missingfiles");
    reveal_strlit("paused");
    reveal_strlit("queued");
    reveal_strlit("queuedup");
    reveal_strlit("reported missing");
    reveal_strlit("seeding");
    reveal_strlit("stalled");
    reveal_strlit("stopped");
    reveal_strlit("stopped seeding");
    reveal_strlit("uploading");
    assert(lowercase_of("Paused"@) == "paused"@) by {
        reveal(lowercase_of);
        assert(ascii_lower("Paused"@) =~= "paused"@);
    }
    lemma_absent_char("paused"@, "queued"@, 0);
    lemma_absent_char("paused"@, "error"@, 1);
    assert("paused"@.len() != "expired"@.len());
    assert("paused"@.len() != "inactive"@.len());
    assert("paused"@.len() != "stopped seeding"@.len());
    assert("paused"@.len() != "queuedup"@.len());
    assert("paused"@[0] != "cached"@[0]);
    assert("paused"@.len() != "completed"@.len());
    assert("paused"@.len() != "downloading"@.len());
    assert("paused"@[0] != "active"@[0]);
    assert("paused"@[0] != "metadl"@[0]);
    assert("paused"@.len() != "checkingresumedata"@.len());
    assert("paused"@.len() != "checking"@.len());
    assert("paused"@.len() != "allocating"@.len());
    assert("paused"@.len() != "stopped"@.len());
    assert("paused"@[0] != "failed"@[0]);
    assert("paused"@.len() != "missingfiles"@.len());
    assert("paused"@.len() != "reported missing"@.len());
    assert("paused"@[0] != "failed"@[0]);
}

proof fn lemma_name_stable_seeding()
    ensures
        normalized_status("Seeding"@) == "Seeding"@,
{
    reveal_strlit("Seeding");
    reveal_strlit("active");
    reveal_strlit("allocating");
    reveal_strlit("cached");
    reveal_strlit("checking");
    reveal_strlit("checkingresumedata");
    reveal_strlit("completed");
    reveal_strlit("downloading");
    reveal_strlit("error");
    reveal_strlit("expired");
    reveal_strlit("failed");
    reveal_strlit("inactive");
    reveal_strlit("metadl");
    reveal_strlit("missingfiles");
    reveal_strlit("paused");
    reveal_strlit("queued");
    reveal_strlit("queuedup");
    reveal_strlit("reported missing");
    reveal_strlit("seeding");
    reveal_strlit("stalled");
    reveal_strlit("stopped");
    reveal_strlit("stopped seeding");
    reveal_strlit("uploading");
    assert(lowercase_of("Seeding"@) == "seeding"@) by {
        reveal(lowercase_of);
        assert(ascii_lower("Seeding"@) =~= "seeding"@);
    }
    lemma_absent_char("seeding"@, "stalled"@, 1);
    assert("seeding"@.subrange(0, 7) =~= "seeding"@);
    assert(occurs_at("seeding"@, "seeding"@, 0));
    lemma_absent_char("seeding"@, "queued"@, 0);
    lemma_absent_char("seeding"@, "stopped"@, 1);
    lemma_absent_char("seeding"@, "error"@, 1);
    assert("seeding"@[0] != "expired"@[0]);
    assert("seeding"@.len() != "inactive"@.len());
    assert("seeding"@.len() != "stopped seeding"@.len());
    assert("seeding"@.len() != "queuedup"@.len());
    assert("seeding"@.len() != "cached"@.len());
    assert("seeding"@.len() != "completed"@.len());
    assert("seeding"@.len() != "downloading"@.len());
    assert("seeding"@.len() != "active"@.len());
    assert("seeding"@.len() != "metadl"@.len());
    assert("seeding"@.len() != "checkingresumedata"@.len());
    assert("seeding"@.len() != "checking"@.len());
    assert("seeding"@.len() != "allocating"@.len());
    assert("seeding"@.len() != "paused"@.len());
    assert("seeding"@[1] != "stopped"@[1]);
    assert("seeding"@.len() != "failed"@.len());
    assert("seeding"@.len() != "missingfiles"@.len());
    assert("seeding"@.len() != "reported missing"@.len());
    assert("seeding"@[0] != "failed"@[0]);
}

proof fn lemma_name_stable_queued()
    ensures
        normalized_status("Queued"@) == "Queued"@,
{
    reveal_strlit("Queued");
    reveal_strlit("active");
    reveal_strlit("allocating");
    reveal_strlit("cached");
    reveal_strlit("checking");
    reveal_strlit("checkingresumedata");
    reveal_strlit("completed");
    reveal_strlit("downloading");
    reveal_strlit("error");
    reveal_strlit("expired");
    reveal_strlit("failed");
    reveal_strlit("inactive");
    reveal_strlit("metadl");
    reveal_strlit("missingfiles");
    reveal_strlit("paused");
    reveal_strlit("queued");
    reveal_strlit("queuedup");
    reveal_strlit("reported missing");
    reveal_strlit("seeding");
    reveal_strlit("stalled");
    reveal_strlit("stopped");
    reveal_strlit("stopped seeding");
    reveal_strlit("uploading");
    assert(lowercase_of("Queued"@) == "queued"@) by {
        reveal(lowercase_of);
        assert(ascii_lower("Queued"@) =~= "queued"@);
    }
    assert("queued"@.subrange(0, 6) =~= "queued"@);
    assert(occurs_at("queued"@, "queued"@, 0));
    lemma_absent_char("queued"@, "error"@, 1);
    assert("queued"@.len() != "expired"@.len());
    assert("queued"@.len() != "inactive"@.len());
    assert("queued"@.len() != "stopped seeding"@.len());
    assert("queued"@.len() != "queuedup"@.len());
    assert("queued"@[0] != "cached"@[0]);
    assert("queued"@.len() != "completed"@.len());
    assert("queued"@.len() != "downloading"@.len());
    assert("queued"@[0] != "active"@[0]);
    assert("queued"@[0] != "metadl"@[0]);
    assert("queued"@.len() != "checkingresumedata"@.len());
    assert("queued"@.len() != "checking"@.len());
    assert("queued"@.len() != "allocating"@.len());
    assert("queued"@[0] != "paused"@[0]);
    assert("queued"@.len() != "stopped"@.len());
    assert("queued"@[0] != "failed"@[0]);
    assert("queued"@.len() != "missingfiles"@.len());
    assert("queued"@.len() != "reported missing"@.len());
    assert("queued"@[0] != "failed"@[0]);
}

proof fn lemma_name_stable_cached()
    ensures
        normalized_status("Cached"@) == "Cached"@,
{
    reveal_strlit("Cached");
    reveal_strlit("active");
    reveal_strlit("allocating");
    reveal_strlit("cached");
    reveal_strlit("checking");
    reveal_strlit("checkingresumedata");
    reveal_strlit("completed");
    reveal_strlit("downloading");
    reveal_strlit("error");
    reveal_strlit("expired");
    reveal_strlit("failed");
    reveal_strlit("inactive");
    reveal_strlit("metadl");
    reveal_strlit("missingfiles");
    reveal_strlit("paused");
    reveal_strlit("queued");
    reveal_strlit("queuedup");
    reveal_strlit("reported missing");
    reveal_strlit("seeding");
    reveal_strlit("stalled");
    reveal_strlit("stopped");
    reveal_strlit("stopped seeding");
    reveal_strlit("uploading");
    assert(lowercase_of("Cached"@) == "cached"@) by {
        reveal(lowercase_of);
        assert(ascii_lower("Cached"@) =~= "cached"@);
    }
    lemma_absent_char("cached"@, "queued"@, 0);
    lemma_absent_char("cached"@, "error"@, 1);
    assert("cached"@.len() != "expired"@.len());
    assert("cached"@.len() != "inactive"@.len());
    assert("cached"@.len() != "stopped seeding"@.len());
    assert("cached"@.len() != "queuedup"@.len());
    assert("cached"@.len() != "completed"@.len());
    assert("cached"@.len() != "downloading"@.len());
    assert("cached"@[0] != "active"@[0]);
    assert("cached"@[0] != "metadl"@[0]);
    assert("cached"@.len() != "checkingresumedata"@.len());
    assert("cached"@.len() != "checking"@.len());
    assert("cached"@.len() != "allocating"@.len());
    assert("cached"@[0] != "paused"@[0]);
    assert("cached"@.len() != "stopped"@.len());
    assert("cached"@[0] != "failed"@[0]);
    assert("cached"@.len() != "missingfiles"@.len());
    assert("cached"@.len() != "reported missing"@.len());
    assert("cached"@[0] != "failed"@[0]);
}

proof fn lemma_name_stable_completed()
    ensures
        normalized_status("Completed"@) == "Completed"@,
{
    reveal_strlit("Completed");
    reveal_strlit("active");
    reveal_strlit("allocating");
    reveal_strlit("cached");
    reveal_strlit("checking");
    reveal_strlit("checkingresumedata");
    reveal_strlit("completed");
    reveal_strlit("downloading");
    reveal_strlit("error");
    reveal_strlit("expired");
    reveal_strlit("failed");
    reveal_strlit("inactive");
    reveal_strlit("metadl");
    reveal_strlit("missingfiles");
    reveal_strlit("paused");
    reveal_strlit("queued");
    reveal_strlit("queuedup");
    reveal_strlit("reported missing");
    reveal_strlit("seeding");
    reveal_strlit("stalled");
    reveal_strlit("stopped");
    reveal_strlit("stopped seeding");
    reveal_strlit("uploading");
    assert(lowercase_of("Completed"@) == "completed"@) by {
        reveal(lowercase_of);
        assert(ascii_lower("Completed"@) =~= "completed"@);
    }
    lemma_absent_char("completed"@, "stalled"@, 0);
    lemma_absent_char("completed"@, "seeding"@, 0);
    lemma_absent_char("completed"@, "uploading"@, 0);
    lemma_absent_char("completed"@, "queued"@, 0);
    lemma_absent_char("completed"@, "queuedup"@, 0);
    lemma_absent_char("completed"@, "checking"@, 1);
    lemma_absent_char("completed"@, "stopped"@, 0);
    lemma_absent_char("completed"@, "error"@, 1);
    assert("completed"@.len() != "expired"@.len());
    assert("completed"@.len() != "inactive"@.len());
    assert("completed"@.len() != "stopped seeding"@.len());
    assert("completed"@.len() != "queuedup"@.len());
    assert("completed"@.len() != "cached"@.len());
    assert("completed"@.len() != "downloading"@.len());
    assert("completed"@.len() != "active"@.len());
    assert("completed"@.len() != "metadl"@.len());
    assert("completed"@.len() != "checkingresumedata"@.len());
    assert("completed"@.len() != "checking"@.len());
    assert("completed"@.len() != "allocating"@.len());
    assert("completed"@.len() != "paused"@.len());
    assert("completed"@.len() != "stopped"@.len());
    assert("completed"@.len() != "failed"@.len());
    assert("completed"@.len() != "missingfiles"@.len());
    assert("completed"@.len() != "reported missing"@.len());
    assert("completed"@[0] != "failed"@[0]);
}

proof fn lemma_name_stable_downloading()
    ensures
        normalized_status("Downloading"@) == "Downloading"@,
{
    reveal_strlit("Downloading");
    reveal_strlit("active");
    reveal_strlit("allocating");
    reveal_strlit("cached");
    reveal_strlit("checking");
    reveal_strlit("checkingresumedata");
    reveal_strlit("completed");
    reveal_strlit("downloading");
    reveal_strlit("error");
    reveal_strlit("expired");
    reveal_strlit("failed");
    reveal_strlit("inactive");
    reveal_strlit("metadl");
    reveal_strlit("missingfiles");
    reveal_strlit("paused");
    reveal_strlit("queued");
    reveal_strlit("queuedup");
    reveal_strlit("reported missing");
    reveal_strlit("seeding");
    reveal_strlit("stalled");
    reveal_strlit("stopped");
    reveal_strlit("stopped seeding");
    reveal_strlit("uploading");
    assert(lowercase_of("Downloading"@) == "downloading"@) by {
        reveal(lowercase_of);
        assert(ascii_lower("Downloading"@) =~= "downloading"@);
    }
    lemma_absent_char("downloading"@, "stalled"@, 0);
    lemma_absent_char("downloading"@, "seeding"@, 0);
    lemma_absent_char("downloading"@, "uploading"@, 0);
    lemma_absent_char("downloading"@, "queued"@, 0);
    lemma_absent_char("downloading"@, "queuedup"@, 0);
    assert("downloading"@.subrange(0, 11) =~= "downloading"@);
    assert(occurs_at("downloading"@, "downloading"@, 0));
    lemma_absent_char("downloading"@, "checking"@, 0);
    lemma_absent_char("downloading"@, "stopped"@, 0);
    lemma_absent_char("downloading"@, "error"@, 0);
    assert("downloading"@.len() != "expired"@.len());
    assert("downloading"@.len() != "inactive"@.len());
    assert("downloading"@.len() != "stopped seeding"@.len());
    assert("downloading"@.len() != "queuedup"@.len());
    assert("downloading"@.len() != "cached"@.len());
    assert("downloading"@.len() != "completed"@.len());
    assert("downloading"@.len() != "active"@.len());
    assert("downloading"@.len() != "metadl"@.len());
    assert("downloading"@.len() != "checkingresumedata"@.len());
    assert("downloading"@.len() != "checking"@.len());
    assert("downloading"@.len() != "allocating"@.len());
    assert("downloading"@.len() != "paused"@.len());
    assert("downloading"@.len() != "stopped"@.len());
    assert("downloading"@.len() != "failed"@.len());
    assert("downloading"@.len() != "missingfiles"@.len());
    assert("downloading"@.len() != "reported missing"@.len());
    assert("downloading"@[0] != "failed"@[0]);
}

proof fn lemma_name_stable_failed()
    ensures
        normalized_status("Failed"@) == "Failed"@,
{
    reveal_strlit("Failed");
    reveal_strlit("active");
    reveal_strlit("allocating");
    reveal_strlit("cached");
    reveal_strlit("checking");
    reveal_strlit("checkingresumedata");
    reveal_strlit("completed");
    reveal_strlit("downloading");
    reveal_strlit("error");
    reveal_strlit("expired");
    reveal_strlit("failed");
    reveal_strlit("inactive");
    reveal_strlit("metadl");
    reveal_strlit("missingfiles");
    reveal_strlit("paused");
    reveal_strlit("queued");
    reveal_strlit("queuedup");
    reveal_strlit("reported missing");
    reveal_strlit("seeding");
    reveal_strlit("stalled");
    reveal_strlit("stopped");
    reveal_strlit("stopped seeding");
    reveal_strlit("uploading");
    assert(lowercase_of("Failed"@) == "failed"@) by {
        reveal(lowercase_of);
        assert(ascii_lower("Failed"@) =~= "failed"@);
    }
    lemma_absent_char("failed"@, "queued"@, 0);
    lemma_absent_char("failed"@, "error"@, 1);
    assert("failed"@.len() != "expired"@.len());
    assert("failed"@.len() != "inactive"@.len());
    assert("failed"@.len() != "stopped seeding"@.len());
    assert("failed"@.len() != "queuedup"@.len());
    assert("failed"@[0] != "cached"@[0]);
    assert("failed"@.len() != "completed"@.len());
    assert("failed"@.len() != "downloading"@.len());
    assert("failed"@[0] != "active"@[0]);
    assert("failed"@[0] != "metadl"@[0]);
    assert("failed"@.len() != "checkingresumedata"@.len());
    assert("failed"@.len() != "checking"@.len());
    assert("failed"@.len() != "allocating"@.len());
    assert("failed"@[0] != "paused"@[0]);
    assert("failed"@.len() != "stopped"@.len());
    assert("failed"@.len() != "missingfiles"@.len());
    assert("failed"@.len() != "reported missing"@.len());
}

proof fn lemma_name_stable_unknown()
    ensures
        normalized_status("Unknown"@) == "Unknown"@,
{
    reveal_strlit("Unknown");
    reveal_strlit("active");
    reveal_strlit("allocating");
    reveal_strlit("cached");
    reveal_strlit("checking");
    reveal_strlit("checkingresumedata");
    reveal_strlit("completed");
    reveal_strlit("downloading");
    reveal_strlit("error");
    reveal_strlit("expired");
    reveal_strlit("failed");
    reveal_strlit("inactive");
    reveal_strlit("metadl");
    reveal_strlit("missingfiles");
    reveal_strlit("paused");
    reveal_strlit("queued");
    reveal_strlit("queuedup");
    reveal_strlit("reported missing");
    reveal_strlit("seeding");
    reveal_strlit("stalled");
    reveal_strlit("stopped");
    reveal_strlit("stopped seeding");
    reveal_strlit("unknown");
    reveal_strlit("uploading");
    assert(lowercase_of("Unknown"@) == "unknown"@) by {
        reveal(lowercase_of);
        assert(ascii_lower("Unknown"@) =~= "unknown"@);
    }
    lemma_absent_char("unknown"@, "stalled"@, 0);
    lemma_absent_char("unknown"@, "seeding"@, 0);
    lemma_absent_char("unknown"@, "queued"@, 0);
    lemma_absent_char("unknown"@, "stopped"@, 0);
    lemma_absent_char("unknown"@, "error"@, 0);
    assert("unknown"@[0] != "expired"@[0]);
    assert("unknown"@.len() != "inactive"@.len());
    assert("unknown"@.len() != "stopped seeding"@.len());
    assert("unknown"@.len() != "queuedup"@.len());
    assert("unknown"@.len() != "cached"@.len());
    assert("unknown"@.len() != "completed"@.len());
    assert("unknown"@.len() != "downloading"@.len());
    assert("unknown"@.len() != "active"@.len());
    assert("unknown"@.len() != "metadl"@.len());
    assert("unknown"@.len() != "checkingresumedata"@.len());
    assert("unknown"@.len() != "checking"@.len());
    assert("unknown"@.len() != "allocating"@.len());
    assert("unknown"@.len() != "paused"@.len());
    assert("unknown"@[0] != "stopped"@[0]);
    assert("unknown"@.len() != "failed"@.len());
    assert("unknown"@.len() != "missingfiles"@.len());
    assert("unknown"@.len() != "reported missing"@.len());
    assert("unknown"@[0] != "failed"@[0]);
    assert(uppercase_of_char('U') == seq!['U']) by {
        reveal(uppercase_of_char);
    }
    assert(seq!['U'] + "Unknown"@.drop_first() =~= "Unknown"@);
}

/// Each fixed shown status name is shown as itself.
proof fn lemma_fixed_names_stable()
    ensures
        normalized_status("Expired"@) == "Expired"@,
        normalized_status("Stalled"@) == "Stalled"@,
        normalized_status("Inactive"@) == "Inactive"@,
        normalized_status("Paused"@) == "Paused"@,
        normalized_status("Seeding"@) == "Seeding"@,
        normalized_status("Queued"@) == "Queued"@,
        normalized_status("Cached"@) == "Cached"@,
        normalized_status("Completed"@) == "Completed"@,
        normalized_status("Downloading"@) == "Downloading"@,
        normalized_status("Failed"@) == "Failed"@,
        normalized_status("Unknown"@) == "Unknown"@,
{
    lemma_name_stable_expired();
    lemma_name_stable_stalled();
    lemma_name_stable_inactive();
    lemma_name_stable_paused();
    lemma_name_stable_seeding();
    lemma_name_stable_queued();
    lemma_name_stable_cached();
    lemma_name_stable_completed();
    lemma_name_stable_downloading();
    lemma_name_stable_failed();
    lemma_name_stable_unknown();
}

/// For an ASCII raw status, the shown name, normalised again, stays as it is.
pub proof fn lemma_normalize_idempotent(s: Seq<char>)
    requires
        all_ascii(s),
    ensures
        normalized_status(normalized_status(s)) == normalized_status(s),
{
    lemma_fixed_names_stable();
    let n = normalized_status(s);
    let l = lowercase_of(s);
    assert(l == ascii_lower(s)) by {
        reveal(lowercase_of);
    }
    let fixed = n == "Expired"@ || n == "Stalled"@ || n == "Inactive"@ || n == "Paused"@ || n
        == "Seeding"@ || n == "Queued"@ || n == "Cached"@ || n == "Completed"@ || n
        == "Downloading"@ || n == "Failed"@ || n == "Unknown"@;
    if !fixed {
        assert(s.len() > 0);
        let u = ascii_upper_char(s[0]);
        assert(uppercase_of_char(s[0]) == seq![u]) by {
            reveal(uppercase_of_char);
        }
        assert(n == seq![u] + s.drop_first());
        assert(all_ascii(n)) by {
            assert forall|i: int| 0 <= i < n.len() implies is_ascii_char(#[trigger] n[i]) by {
                if i > 0 {
                    assert(n[i] == s[i]);
                }
            }
        }
        assert(ascii_lower(n) =~= ascii_lower(s)) by {
            assert forall|i: int| 0 <= i < n.len() implies #[trigger] ascii_lower(n)[i]
                == ascii_lower(s)[i] by {
                if i > 0 {
                    assert(n[i] == s[i]);
                }
            }
        }
        assert(lowercase_of(n) == l) by {
            reveal(lowercase_of);
        }
        assert(n[0] == u);
        assert(uppercase_of_char(u) == seq![u]) by {
            reveal(uppercase_of_char);
        }
        assert(n.drop_first() =~= s.drop_first());
        assert(seq![u] + n.drop_first() =~= n);
    }
}

/// The fixed shown status names are distinct.
pub proof fn lemma_shown_names_distinct()
    ensures
        "Completed"@ != "Cached"@,
        "Completed"@ != "Downloading"@,
        "Completed"@ != "Seeding"@,
        "Completed"@ != "Queued"@,
        "Cached"@ != "Downloading"@,
        "Cached"@ != "Seeding"@,
        "Cached"@ != "Queued"@,
        "Downloading"@ != "Seeding"@,
        "Downloading"@ != "Queued"@,
        "Seeding"@ != "Queued"@,
{
    reveal_strlit("Completed");
    reveal_strlit("Cached");
    reveal_strlit("Downloading");
    reveal_strlit("Seeding");
    reveal_strlit("Queued");
    assert("Completed"@[1] != "Cached"@[1]);
    assert("Cached"@[0] != "Downloading"@[0]);
    assert("Cached"@[0] != "Seeding"@[0]);
    assert("Cached"@[0] != "Queued"@[0]);
    assert("Seeding"@[0] != "Queued"@[0]);
}

/// Sort priority of a shown status name: queued first, expired last, anything else after.
pub open spec fn priority_of_name(n: Seq<char>) -> u8 {
    if n == "Queued"@ {
        1
    } else if n == "Downloading"@ {
        2
    } else if n == "Seeding"@ {
        3
    } else if n == "Completed"@ {
        4
    } else if n == "Cached"@ {
        5
    } else if n == "Paused"@ {
        6
    } else if n == "Stalled"@ {
        7
    } else if n == "Inactive"@ {
        8
    } else if n == "Failed"@ {
        9
    } else if n == "Expired"@ {
        10
    } else {
        99
    }
}

fn priority_of_name_exec(n: &str) -> (r: u8)
    ensures
        r == priority_of_name(n@),
{
    if str_eq(n, "Queued") {
        1
    } else if str_eq(n, "Downloading") {
        2
    } else if str_eq(n, "Seeding") {
        3
    } else if str_eq(n, "Completed") {
        4
    } else if str_eq(n, "Cached") {
        5
    } else if str_eq(n, "Paused") {
        6
    } else if str_eq(n, "Stalled") {
        7
    } else if str_eq(n, "Inactive") {
        8
    } else if str_eq(n, "Failed") {
        9
    } else if str_eq(n, "Expired") {
        10
    } else {
        99
    }
}

/// The sort priority of a raw status, by its shown name.
pub fn get_status_priority(status: &str) -> (r: u8)
    ensures
        r == priority_of_name(normalized_status(status@)),
{
    let n = normalize_status(status);
    priority_of_name_exec(n.as_str())
}

/// The text colour style of a shown status name.
pub open spec fn color_style_of_name(n: Seq<char>) -> Seq<char> {
    if n == "Completed"@ || n == "Cached"@ {
        "color: #4ade80;"@
    } else if n == "Downloading"@ {
        "color: #3b82f6;"@
    } else if n == "Seeding"@ || n == "Queued"@ {
        "color: #60a5fa;"@
    } else if n == "Paused"@ {
        "color: #facc15;"@
    } else if n == "Stalled"@ || n == "Failed"@ {
        "color: #f87171;"@
    } else if n == "Inactive"@ || n == "Expired"@ {
        "color: #9ca3af;"@
    } else {
        "color: #94a3b8;"@
    }
}

/// The text colour style of a raw status, by its shown name.
pub fn get_status_color_style(status: &str) -> (r: String)
    ensures
        r@ == color_style_of_name(normalized_status(status@)),
{
    let n = normalize_status(status);
    let n = n.as_str();
    if str_eq(n, "Completed") || str_eq(n, "Cached") {
        lit("color: #4ade80;")
    } else if str_eq(n, "Downloading") {
        lit("color: #3b82f6;")
    } else if str_eq(n, "Seeding") || str_eq(n, "Queued") {
        lit("color: #60a5fa;")
    } else if str_eq(n, "Paused") {
        lit("color: #facc15;")
    } else if str_eq(n, "Stalled") || str_eq(n, "Failed") {
        lit("color: #f87171;")
    } else if str_eq(n, "Inactive") || str_eq(n, "Expired") {
        lit("color: #9ca3af;")
    } else {
        lit("color: #94a3b8;")
    }
}

/// The badge style of a shown status name.
pub open spec fn badge_style_of_name(n: Seq<char>) -> Seq<char> {
    if n == "Completed"@ || n == "Cached"@ {
        "background-color: rgba(34, 197, 94, 0.15); color: #4ade80; border: 1px solid rgba(34, 197, 94, 0.3);"@
    } else if n == "Downloading"@ {
        "background-color: rgba(59, 130, 246, 0.15); color: #3b82f6; border: 1px solid rgba(59, 130, 246, 0.3);"@
    } else if n == "Seeding"@ || n == "Queued"@ {
        "background-color: rgba(96, 165, 250, 0.15); color: #60a5fa; border: 1px solid rgba(96, 165, 250, 0.3);"@
    } else if n == "Paused"@ {
        "background-color: rgba(250, 204, 21, 0.15); color: #facc15; border: 1px solid rgba(250, 204, 21, 0.3);"@
    } else if n == "Stalled"@ || n == "Failed"@ {
        "background-color: rgba(248, 113, 113, 0.15); color: #f87171; border: 1px solid rgba(248, 113, 113, 0.3);"@
    } else if n == "Inactive"@ || n == "Expired"@ {
        "background-color: rgba(156, 163, 175, 0.15); color: #9ca3af; border: 1px solid rgba(156, 163, 175, 0.3);"@
    } else {
        "background-color: rgba(148, 163, 184, 0.15); color: #94a3b8; border: 1px solid rgba(148, 163, 184, 0.3);"@
    }
}

/// The badge style of a raw status, by its shown name.
pub fn get_status_badge_style(status: &str) -> (r: String)
    ensures
        r@ == badge_style_of_name(normalized_status(status@)),
{
    let n = normalize_status(status);
    let n = n.as_str();
    if str_eq(n, "Completed") || str_eq(n, "Cached") {
        lit("background-color: rgba(34, 197, 94, 0.15); color: #4ade80; border: 1px solid rgba(34, 197, 94, 0.3);")
    } else if str_eq(n, "Downloading") {
        lit("background-color: rgba(59, 130, 246, 0.15); color: #3b82f6; border: 1px solid rgba(59, 130, 246, 0.3);")
    } else if str_eq(n, "Seeding") || str_eq(n, "Queued") {
        lit("background-color: rgba(96, 165, 250, 0.15); color: #60a5fa; border: 1px solid rgba(96, 165, 250, 0.3);")
    } else if str_eq(n, "Paused") {
        lit("background-color: rgba(250, 204, 21, 0.15); color: #facc15; border: 1px solid rgba(250, 204, 21, 0.3);")
    } else if str_eq(n, "Stalled") || str_eq(n, "Failed") {
        lit("background-color: rgba(248, 113, 113, 0.15); color: #f87171; border: 1px solid rgba(248, 113, 113, 0.3);")
    } else if str_eq(n, "Inactive") || str_eq(n, "Expired") {
        lit("background-color: rgba(156, 163, 175, 0.15); color: #9ca3af; border: 1px solid rgba(156, 163, 175, 0.3);")
    } else {
        lit("background-color: rgba(148, 163, 184, 0.15); color: #94a3b8; border: 1px solid rgba(148, 163, 184, 0.3);")
    }
}

/// The progress track colour: none for every status.
pub fn get_progress_bg_color(_status: &str) -> (r: &'static str)
    ensures
        r@ == ""@,
{
    ""
}

/// The progress bar style: the theme's fill colour for every status.
pub fn get_progress_bar_style(_status: &str) -> (r: String)
    ensures
        r@ == "background-color: var(--progress-fill);"@,
{
    lit("background-color: var(--progress-fill);")
}

/// Seconds a `checking` download may last before it counts as stalled: more than six hours.
pub open spec fn checking_stall_seconds() -> i64 {
    21601
}

/// A downloading item looks stalled: under 1 KiB/s down and, where peer counts are
/// known, no upload and either no seeds and no peers or an inactive flag; where only the
/// active flag is known, that flag is false.
pub open spec fn downloading_looks_stalled(
    download_speed: i64,
    upload_speed: i64,
    is_active: Option<bool>,
    seeds: Option<i32>,
    peers: Option<i32>,
) -> bool {
    let has_no_speed = download_speed < 1024;
    let has_no_seeds = seeds == Some(0i32);
    let has_no_peers = peers == Some(0i32);
    let is_inactive = is_active == Some(false);
    if seeds is Some || peers is Some {
        has_no_speed && upload_speed == 0 && ((has_no_seeds && has_no_peers) || is_inactive)
    } else if is_active is Some {
        has_no_speed && is_inactive
    } else {
        false
    }
}

/// The status after stall detection: `uploading` is shown as `seeding`; a `checking`
/// item checked more than six hours ago, and a downloading item that looks stalled,
/// get ` (stalled)` appended; anything else is kept.
pub open spec fn stalled_status_spec(
    original: Seq<char>,
    download_speed: i64,
    upload_speed: i64,
    is_active: Option<bool>,
    seeds: Option<i32>,
    peers: Option<i32>,
    checked_at: Option<(i64, u32)>,
    now: (i64, u32),
) -> Seq<char> {
    let l = lowercase_of(original);
    if contains_seq(l, "uploading"@) {
        replace_all(replace_all(original, "uploading"@, "seeding"@), "Uploading"@, "seeding"@)
    } else if l == "checking"@ && checked_at is Some && nanos_between(checked_at->0, now)
        >= checking_stall_seconds() * 1_000_000_000 {
        original + " (stalled)"@
    } else if (l == "downloading"@ || l == "active"@ || contains_seq(l, "downloading"@))
        && downloading_looks_stalled(download_speed, upload_speed, is_active, seeds, peers) {
        original + " (stalled)"@
    } else {
        original
    }
}

/// An active download with a known seed or peer count other than zero is never marked
/// stalled: whatever its speeds, a status that is neither uploading nor `checking`
/// stays exactly as the service gave it.
pub proof fn lemma_active_with_peers_not_stalled(
    original: Seq<char>,
    download_speed: i64,
    upload_speed: i64,
    seeds: Option<i32>,
    peers: Option<i32>,
    checked_at: Option<(i64, u32)>,
    now: (i64, u32),
)
    requires
        !contains_seq(lowercase_of(original), "uploading"@),
        lowercase_of(original) != "checking"@,
        (seeds is Some && seeds != Some(0i32)) || (peers is Some && peers != Some(0i32)),
    ensures
        stalled_status_spec(
            original,
            download_speed,
            upload_speed,
            Some(true),
            seeds,
            peers,
            checked_at,
            now,
        ) == original,
{
}

/// A `downloading` status of an active download with no seeds, no peers, under
/// 1 KiB/s down and nothing up gets ` (stalled)` appended.
pub proof fn lemma_no_seeds_no_peers_stalled(
    original: Seq<char>,
    download_speed: i64,
    checked_at: Option<(i64, u32)>,
    now: (i64, u32),
)
    requires
        lowercase_of(original) == "downloading"@,
        download_speed < 1024,
    ensures
        stalled_status_spec(
            original,
            download_speed,
            0,
            Some(true),
            Some(0i32),
            Some(0i32),
            checked_at,
            now,
        ) == original + " (stalled)"@,
{
    reveal_strlit("downloading");
    reveal_strlit("uploading");
    reveal_strlit("checking");
    lemma_absent_char(lowercase_of(original), "uploading"@, 0);
    assert("downloading"@.len() != "checking"@.len());
}

/// A download moving at 1 KiB/s or more is never marked stalled: a status that is
/// neither uploading nor `checking` stays exactly as the service gave it.
pub proof fn lemma_moving_not_stalled(
    original: Seq<char>,
    download_speed: i64,
    upload_speed: i64,
    is_active: Option<bool>,
    seeds: Option<i32>,
    peers: Option<i32>,
    checked_at: Option<(i64, u32)>,
    now: (i64, u32),
)
    requires
        !contains_seq(lowercase_of(original), "uploading"@),
        lowercase_of(original) != "checking"@,
        download_speed >= 1024,
    ensures
        stalled_status_spec(
            original,
            download_speed,
            upload_speed,
            is_active,
            seeds,
            peers,
            checked_at,
            now,
        ) == original,
{
}

/// A `downloading` status of a download the service reports inactive, under 1 KiB/s
/// down and nothing up, gets ` (stalled)` appended, whatever its seed and peer counts.
pub proof fn lemma_inactive_slow_stalled(
    original: Seq<char>,
    download_speed: i64,
    seeds: Option<i32>,
    peers: Option<i32>,
    checked_at: Option<(i64, u32)>,
    now: (i64, u32),
)
    requires
        lowercase_of(original) == "downloading"@,
        download_speed < 1024,
    ensures
        stalled_status_spec(
            original,
            download_speed,
            0,
            Some(false),
            seeds,
            peers,
            checked_at,
            now,
        ) == original + " (stalled)"@,
{
    reveal_strlit("downloading");
    reveal_strlit("uploading");
    reveal_strlit("checking");
    lemma_absent_char(lowercase_of(original), "uploading"@, 0);
    assert("downloading"@.len() != "checking"@.len());
}

fn with_stalled_suffix(original: &str) -> (r: String)
    ensures
        r@ == original@ + " (stalled)"@,
{
    let mut out = chars_of(original);
    let suffix = chars_of(" (stalled)");
    append_chars(&mut out, &suffix);
    string_from_chars(&out)
}

/// Stall detection given the instant the item was last checked (if it could be read)
/// and the current instant.
pub fn stalled_status(
    original_status: &str,
    download_speed: i64,
    upload_speed: i64,
    is_active: Option<bool>,
    seeds: Option<i32>,
    peers: Option<i32>,
    checked_at: Option<(i64, u32)>,
    now: (i64, u32),
) -> (r: String)
    ensures
        r@ == stalled_status_spec(
            original_status@,
            download_speed,
            upload_speed,
            is_active,
            seeds,
            peers,
            checked_at,
            now,
        ),
{
    let lower = to_lowercase(original_status);
    let l = lower.as_str();
    if str_contains(l, "uploading") {
        let once = str_replace(original_status, "uploading", "seeding");
        return str_replace(once.as_str(), "Uploading", "seeding");
    }
    if str_eq(l, "checking") {
        if let Some(t) = checked_at {
            if at_least_seconds_between(t, now, 21601) {
                return with_stalled_suffix(original_status);
            }
        }
    }
    let is_downloading_status = str_eq(l, "downloading") || str_eq(l, "active") || str_contains(
        l,
        "downloading",
    );
    if is_downloading_status {
        let has_no_speed = download_speed < 1024;
        let has_no_seeds = match seeds {
            Some(s) => s == 0,
            None => false,
        };
        let has_no_peers = match peers {
            Some(p) => p == 0,
            None => false,
        };
        let is_inactive = match is_active {
            Some(a) => !a,
            None => false,
        };
        if seeds.is_some() || peers.is_some() {
            if has_no_speed && upload_speed == 0 && ((has_no_seeds && has_no_peers) || is_inactive) {
                return with_stalled_suffix(original_status);
            }
        } else if is_active.is_some() {
            if has_no_speed && is_inactive {
                return with_stalled_suffix(original_status);
            }
        }
    }
    String::from_str(original_status)
}

/// The text whose time decides whether a `checking` item is stalled: the update time
/// where there is one, else the creation time.
pub open spec fn check_time_text(created_at: Seq<char>, updated_at: Option<Seq<char>>) -> Seq<char> {
    match updated_at {
        Some(u) => u,
        None => created_at,
    }
}

/// Stall detection at a given current instant; the check time is read from the update
/// time, or the creation time where there is no update time.
pub fn detect_stalled_status_at(
    original_status: &str,
    download_speed: i64,
    upload_speed: i64,
    is_active: Option<bool>,
    seeds: Option<i32>,
    peers: Option<i32>,
    created_at: &str,
    updated_at: Option<&str>,
    now: (i64, u32),
) -> (r: String)
    ensures
        r@ == stalled_status_spec(
            original_status@,
            download_speed,
            upload_speed,
            is_active,
            seeds,
            peers,
            rfc3339_instant(
                check_time_text(
                    created_at@,
                    opt_str_view(updated_at),
                ),
            ),
            now,
        ),
{
    let check_time = match updated_at {
        Some(u) => u,
        None => created_at,
    };
    let checked_at = parse_rfc3339(check_time);
    stalled_status(
        original_status,
        download_speed,
        upload_speed,
        is_active,
        seeds,
        peers,
        checked_at,
        now,
    )
}

/// Stall detection at the current time of the system clock.
pub fn detect_stalled_status(
    original_status: &str,
    download_speed: i64,
    upload_speed: i64,
    is_active: Option<bool>,
    seeds: Option<i32>,
    peers: Option<i32>,
    created_at: &str,
    updated_at: Option<&str>,
) -> (r: String)
    ensures
        exists|now: (i64, u32)|
            r@ == #[trigger] stalled_status_spec(
                original_status@,
                download_speed,
                upload_speed,
                is_active,
                seeds,
                peers,
                rfc3339_instant(
                    check_time_text(
                        created_at@,
                        opt_str_view(updated_at),
                    ),
                ),
                now,
            ),
{
    let now = now_instant();
    detect_stalled_status_at(
        original_status,
        download_speed,
        upload_speed,
        is_active,
        seeds,
        peers,
        created_at,
        updated_at,
        now,
    )
}

} // verus!
