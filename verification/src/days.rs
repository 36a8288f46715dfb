//! Numbering of day folders.
//!
//! A day folder is named `day<N>`. The current day of a days directory is
//! the largest `N` among its entries, or 0 when no entry carries a number;
//! the next day is the current day plus one. Directory entries are handed
//! in as plain strings; reading the directory is the caller's side.

use vstd::prelude::*;

use crate::text::{all_digits, dec_rep, dec_val, parse_u32, u32_to_string};

verus! {

/// The characters of the `day` folder prefix.
pub open spec fn day_prefix() -> Seq<char> {
    seq!['d', 'a', 'y']
}

/// What is left of an entry name after removing every leading `day`.
pub open spec fn strip_day_prefixes(s: Seq<char>) -> Seq<char>
    decreases s.len(),
{
    if s.len() >= 3 && s.take(3) == day_prefix() {
        strip_day_prefixes(s.skip(3))
    } else {
        s
    }
}

/// The day number an entry name denotes: every leading `day` is removed
/// and the remainder must be a nonempty digit string that fits in `u32`.
pub open spec fn day_entry_num(s: Seq<char>) -> Option<nat> {
    let t = strip_day_prefixes(s);
    if t.len() > 0 && all_digits(t) && dec_val(t) <= u32::MAX {
        Some(dec_val(t))
    } else {
        None
    }
}

/// The day number an entry counts for: entries without a number count 0.
pub open spec fn day_entry_val(s: Seq<char>) -> nat {
    match day_entry_num(s) {
        Some(v) => v,
        None => 0,
    }
}

/// Parses an entry name as a day folder name.
pub fn day_number(name: &str) -> (r: Option<u32>)
    ensures
        r is Some <==> day_entry_num(name@) is Some,
        r matches Some(v) ==> day_entry_num(name@) == Some(v as nat),
{
    let mut s: &str = name;
    let mut n = s.unicode_len();
    proof {
        reveal_strlit("day");
    }
    while n >= 3 && s.get_char(0) == 'd' && s.get_char(1) == 'a' && s.get_char(2) == 'y'
        invariant
            n == s@.len(),
            strip_day_prefixes(name@) == strip_day_prefixes(s@),
        decreases n,
    {
        assert(s@.take(3) =~= day_prefix());
        s = s.substring_char(3, n);
        n = n - 3;
    }
    proof {
        if s@.len() >= 3 && s@.take(3) == day_prefix() {
            assert(s@[0] == 'd' && s@[1] == 'a' && s@[2] == 'y');
            assert(false);
        }
        assert(strip_day_prefixes(s@) == s@);
    }
    parse_u32(s)
}

/// The current day: the largest day number among the entries, 0 if none
/// carries one.
pub fn curday(entries: &Vec<String>) -> (r: u32)
    ensures
        forall|i: int| 0 <= i < entries.len() ==> day_entry_val(#[trigger] entries[i]@) <= r,
        r == 0 || exists|i: int| 0 <= i < entries.len() && day_entry_val(#[trigger] entries[i]@)
            == r,
{
    let mut max: u32 = 0;
    let mut i: usize = 0;
    while i < entries.len()
        invariant
            0 <= i <= entries.len(),
            forall|j: int| 0 <= j < i ==> day_entry_val(#[trigger] entries[j]@) <= max,
            max == 0 || exists|j: int| 0 <= j < i && day_entry_val(#[trigger] entries[j]@) == max,
        decreases entries.len() - i,
    {
        match day_number(entries[i].as_str()) {
            Some(v) => {
                if v > max {
                    max = v;
                }
            },
            None => {},
        }
        i = i + 1;
    }
    max
}

/// The name of the day folder for day `n`.
pub open spec fn day_folder_name(n: nat) -> Seq<char> {
    day_prefix() + dec_rep(n)
}

/// A day folder written for day `n` reads back as day `n`: the name
/// `day<n>` denotes the number `n` again, so the folder made for the next
/// day is the one the next run counts.
pub proof fn lemma_day_folder_round_trip(n: nat)
    requires
        n <= u32::MAX,
    ensures
        day_entry_num(day_folder_name(n)) == Some(n),
{
    crate::text::lemma_dec_rep_val(n);
    let s = day_folder_name(n);
    let d = dec_rep(n);
    assert(s.take(3) =~= day_prefix());
    assert(s.skip(3) =~= d);
    assert(strip_day_prefixes(s) == strip_day_prefixes(d));
    assert(crate::text::is_digit(d[0]));
    assert(d[0] != 'd');
    if d.len() >= 3 && d.take(3) == day_prefix() {
        assert(d.take(3)[0] == d[0]);
        assert(false);
    }
    assert(strip_day_prefixes(d) == d);
}

/// The path of day `n` inside a days directory.
pub open spec fn day_path(days_dir: Seq<char>, n: nat) -> Seq<char> {
    days_dir + seq!['/'] + day_folder_name(n)
}

/// The path of the given day inside the days directory.
pub fn curday_path(days_dir: &str, day: u32) -> (r: String)
    ensures
        r@ == day_path(days_dir@, day as nat),
{
    let mut r = String::from_str(days_dir);
    r.append("/day");
    r.append(u32_to_string(day).as_str());
    proof {
        reveal_strlit("/day");
        assert(r@ =~= day_path(days_dir@, day as nat));
    }
    r
}

/// The path of the day after the given one.
pub fn nextday_path(days_dir: &str, day: u32) -> (r: String)
    requires
        day < u32::MAX,
    ensures
        r@ == day_path(days_dir@, day as nat + 1),
{
    curday_path(days_dir, day + 1)
}

/// The path of a kata inside the given day.
pub fn curday_kata_path(days_dir: &str, day: u32, kata_name: &str) -> (r: String)
    ensures
        r@ == day_path(days_dir@, day as nat) + seq!['/'] + kata_name@,
{
    let mut r = curday_path(days_dir, day);
    r.append("/");
    r.append(kata_name);
    proof {
        reveal_strlit("/");
        assert(r@ =~= day_path(days_dir@, day as nat) + seq!['/'] + kata_name@);
    }
    r
}

} // verus!
