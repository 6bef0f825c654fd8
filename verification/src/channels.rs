//! Channel-name helpers and the elevation-banner rule.

use vstd::prelude::*;
use crate::text::chars_of;
use crate::text::contains_seq;
use crate::text::eq_ignore_ascii;
use crate::text::eq_ignore_ascii_case_chars;
use crate::text::find_exact;
use crate::text::lower_of;
use crate::text::lowercase;

verus! {

/// `p` is a prefix of `s`.
pub open spec fn has_prefix(s: Seq<char>, p: Seq<char>) -> bool {
    p.len() <= s.len() && s.subrange(0, p.len() as int) == p
}

fn starts_with_exec(s: &Vec<char>, p: &Vec<char>) -> (r: bool)
    ensures
        r == has_prefix(s@, p@),
{
    if p.len() > s.len() {
        return false;
    }
    let mut i: usize = 0;
    while i < p.len()
        invariant
            p@.len() <= s@.len(),
            i <= p@.len(),
            forall|q: int| 0 <= q < i ==> s@[q] == p@[q],
        decreases p@.len() - i,
    {
        if s[i] != p[i] {
            proof {
                assert(s@.subrange(0, p@.len() as int)[i as int] != p@[i as int]);
            }
            return false;
        }
        i = i + 1;
    }
    proof {
        assert(s@.subrange(0, p@.len() as int) =~= p@);
    }
    true
}

/// The display group of a channel name.
pub open spec fn category_spec(channel: Seq<char>) -> Seq<char> {
    if eq_ignore_ascii(channel, "Application"@) || eq_ignore_ascii(channel, "System"@)
        || eq_ignore_ascii(channel, "Security"@) || eq_ignore_ascii(channel, "Setup"@) {
        "Windows Logs"@
    } else if has_prefix(channel, "Microsoft-Windows-"@) {
        "Applications and Services Logs"@
    } else {
        "Other"@
    }
}

/// Categorise a channel name into a display group; the four classic logs
/// first, then the operational/analytic tree, then everything else.
pub fn categorise_channel<'a>(channel: &'a str) -> (r: (&'static str, &'a str))
    ensures
        r.0@ == category_spec(channel@),
        r.1@ == channel@,
{
    let ch = chars_of(channel);
    if eq_ignore_ascii_case_chars(&ch, &chars_of("Application")) || eq_ignore_ascii_case_chars(
        &ch,
        &chars_of("System"),
    ) || eq_ignore_ascii_case_chars(&ch, &chars_of("Security")) || eq_ignore_ascii_case_chars(
        &ch,
        &chars_of("Setup"),
    ) {
        return ("Windows Logs", channel);
    }
    if starts_with_exec(&ch, &chars_of("Microsoft-Windows-")) {
        return ("Applications and Services Logs", channel);
    }
    ("Other", channel)
}

/// First element of `all` equal to `name` up to ASCII case.
pub open spec fn ci_find(all: Seq<String>, name: Seq<char>) -> Option<int> {
    if exists|k: int| 0 <= k < all.len() && eq_ignore_ascii(#[trigger] all[k]@, name) {
        Some(
            choose|k: int|
                0 <= k < all.len() && eq_ignore_ascii(#[trigger] all[k]@, name) && forall|q: int|
                    0 <= q < k ==> !eq_ignore_ascii(#[trigger] all[q]@, name),
        )
    } else {
        None
    }
}

/// What the found element (if any) contributes to the result.
pub open spec fn ci_found(all: Seq<String>, name: Seq<char>) -> Seq<Seq<char>> {
    match ci_find(all, name) {
        Some(k) => seq![all[k]@],
        None => Seq::empty(),
    }
}

fn find_ci_exec(all: &Vec<String>, name: &str) -> (r: Option<usize>)
    ensures
        match r {
            Some(k) => k < all@.len() && ci_found(all@, name@) == seq![all@[k as int]@],
            None => ci_found(all@, name@) == Seq::<Seq<char>>::empty(),
        },
{
    let n = chars_of(name);
    let mut i: usize = 0;
    while i < all.len()
        invariant
            i <= all@.len(),
            n@ == name@,
            forall|q: int| 0 <= q < i ==> !eq_ignore_ascii(#[trigger] all@[q]@, name@),
        decreases all@.len() - i,
    {
        let c = chars_of(all[i].as_str());
        if eq_ignore_ascii_case_chars(&c, &n) {
            proof {
                let k0 = choose|k: int|
                    0 <= k < all@.len() && eq_ignore_ascii(#[trigger] all@[k]@, name@) && forall|
                        q: int,
                    | 0 <= q < k ==> !eq_ignore_ascii(#[trigger] all@[q]@, name@);
                assert(eq_ignore_ascii(all@[i as int]@, name@));
                assert(ci_find(all@, name@) == Some(k0));
                assert(k0 == i as int) by {
                    if k0 < i {
                        assert(!eq_ignore_ascii(all@[k0]@, name@));
                    }
                    if k0 > i {
                        assert(!eq_ignore_ascii(all@[i as int]@, name@));
                    }
                }
            }
            return Some(i);
        }
        i = i + 1;
    }
    None
}

/// The commonly useful channels found in `all`, in canonical order, each
/// kept with the exact spelling the system reported (so later lookups by
/// equality find them again).
#[verifier::rlimit(50)]
pub fn common_channels(all: &Vec<String>) -> (r: Vec<String>)
    ensures
        r@.map_values(|s: String| s@) == ci_found(all@, "Application"@) + ci_found(
            all@,
            "System"@,
        ) + ci_found(all@, "Security"@) + ci_found(all@, "Setup"@),
{
    let mut r: Vec<String> = Vec::new();
    match find_ci_exec(all, "Application") {
        Some(k) => r.push(all[k].clone()),
        None => {},
    }
    proof {
        assert(r@.map_values(|s: String| s@) =~= ci_found(all@, "Application"@));
    }
    match find_ci_exec(all, "System") {
        Some(k) => r.push(all[k].clone()),
        None => {},
    }
    proof {
        assert(r@.map_values(|s: String| s@) =~= ci_found(all@, "Application"@) + ci_found(
            all@,
            "System"@,
        ));
    }
    match find_ci_exec(all, "Security") {
        Some(k) => r.push(all[k].clone()),
        None => {},
    }
    proof {
        assert(r@.map_values(|s: String| s@) =~= ci_found(all@, "Application"@) + ci_found(
            all@,
            "System"@,
        ) + ci_found(all@, "Security"@));
    }
    match find_ci_exec(all, "Setup") {
        Some(k) => r.push(all[k].clone()),
        None => {},
    }
    proof {
        assert(r@.map_values(|s: String| s@) =~= ci_found(all@, "Application"@) + ci_found(
            all@,
            "System"@,
        ) + ci_found(all@, "Security"@) + ci_found(all@, "Setup"@));
    }
    r
}

/// One error entry demands the elevation banner: it came from the
/// Security channel and its text names the access-denied HRESULT or says
/// "access" in any casing.
pub open spec fn security_error_entry(e: (String, String)) -> bool {
    e.0@ == "Security"@ && (contains_seq(e.1@, "80070005"@) || contains_seq(
        lower_of(e.1@),
        "access"@,
    ))
}

/// Whether the error list holds a Security-channel access-denied entry.
pub open spec fn security_access_spec(errors: Seq<(String, String)>) -> bool {
    exists|i: int| 0 <= i < errors.len() && security_error_entry(#[trigger] errors[i])
}

/// Scan the error list for a Security-channel access-denied entry, the
/// condition for the elevation banner.
#[verifier::loop_isolation(false)]
pub fn security_access_error_in_list(errors: &Vec<(String, String)>) -> (r: bool)
    ensures
        r == security_access_spec(errors@),
{
    let security = String::from_str("Security");
    let code = chars_of("80070005");
    let needle = chars_of("access");
    let mut i: usize = 0;
    while i < errors.len()
        invariant
            i <= errors@.len(),
            forall|q: int| 0 <= q < i ==> !security_error_entry(#[trigger] errors@[q]),
        decreases errors@.len() - i,
    {
        let e = &errors[i];
        if e.0 == security {
            if find_exact(&chars_of(e.1.as_str()), &code) {
                proof {
                    assert(security_error_entry(errors@[i as int]));
                }
                return true;
            }
            let low = lowercase(e.1.as_str());
            if find_exact(&chars_of(low.as_str()), &needle) {
                proof {
                    assert(security_error_entry(errors@[i as int]));
                }
                return true;
            }
        }
        proof {
            assert(!security_error_entry(errors@[i as int]));
        }
        i = i + 1;
    }
    false
}

} // verus!
