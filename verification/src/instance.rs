//! The single-instance lock: a second copy would lose the hotkey silently, so
//! it refuses to start. A lock whose holder is gone may be taken over.

use vstd::prelude::*;

use crate::text;

verus! {

/// A heartbeat older than this, in seconds, is a dead holder's.
pub const STALE_SECS: u64 = 90;

/// How often the holder refreshes the lock, in ms.
pub const HEARTBEAT_MS: u64 = 30_000;

/// All characters are decimal digits.
pub open spec fn all_digits(s: Seq<char>) -> bool {
    forall|i: int| 0 <= i < s.len() ==> '0' <= #[trigger] s[i] <= '9'
}

/// The number that decimal digits spell.
pub open spec fn digits_value(s: Seq<char>) -> int
    decreases s.len(),
{
    if s.len() == 0 {
        0
    } else {
        digits_value(s.drop_last()) * 10 + (s.last() as int - '0' as int)
    }
}

/// A text without one leading plus sign.
pub open spec fn without_plus(s: Seq<char>) -> Seq<char> {
    if s.len() > 0 && s[0] == '+' {
        s.drop_first()
    } else {
        s
    }
}

/// The process id that a lock file names: a decimal number of 32 bits, with an
/// optional plus sign and whitespace around it.
pub open spec fn pid_in(s: Seq<char>) -> Option<int> {
    let d = without_plus(text::trimmed(s));
    if d.len() > 0 && all_digits(d) && digits_value(d) <= u32::MAX {
        Some(digits_value(d))
    } else {
        None
    }
}

proof fn lemma_digits_grow(s: Seq<char>, k: int)
    requires
        all_digits(s),
        0 <= k <= s.len(),
    ensures
        0 <= digits_value(s.take(k)) <= digits_value(s),
    decreases s.len(),
{
    if s.len() == 0 {
        assert(s.take(k) =~= s);
    } else {
        let t = s.drop_last();
        assert forall|i: int| 0 <= i < t.len() implies '0' <= #[trigger] t[i] <= '9' by {
            assert(t[i] == s[i]);
        }
        let last: char = s[s.len() - 1];
        assert('0' <= last <= '9');
        if k == s.len() {
            lemma_digits_grow(t, t.len() as int);
            assert(t.take(t.len() as int) =~= t);
            assert(s.take(k) =~= s);
        } else {
            lemma_digits_grow(t, k);
            assert(t.take(k) =~= s.take(k));
        }
    }
}

/// The process id in the text of a lock file.
pub fn lock_holder(lock: &str) -> (r: Option<u32>)
    ensures
        match r {
            Some(pid) => pid_in(lock@) == Some(pid as int),
            None => pid_in(lock@) is None,
        },
{
    let t = text::trim(lock);
    let x = text::chars_of(t.as_str());
    let start: usize = if x.len() > 0 && x[0] == '+' {
        1
    } else {
        0
    };
    let ghost d = without_plus(x@);
    assert(d =~= x@.skip(start as int));
    if start == x.len() {
        return None;
    }
    let mut value: u32 = 0;
    let mut i: usize = start;
    assert(d.take(0) =~= Seq::empty());
    while i < x.len()
        invariant
            x@ == text::trimmed(lock@),
            d == without_plus(x@),
            start <= i <= x@.len(),
            d == x@.skip(start as int),
            d.len() > 0,
            forall|k: int| 0 <= k < i - start ==> '0' <= #[trigger] d[k] <= '9',
            value == digits_value(d.take(i - start)),
        decreases x@.len() - i,
    {
        let c: char = x[i];
        let ghost k = i - start;
        assert(d[k] == c);
        if c < '0' || c > '9' {
            return None;
        }
        assert(d.take(k + 1).drop_last() =~= d.take(k));
        assert(d.take(k + 1).last() == c);
        let digit: u32 = c as u32 - '0' as u32;
        let wide: u64 = value as u64 * 10 + digit as u64;
        if wide > u32::MAX as u64 {
            proof {
                if all_digits(d) {
                    lemma_digits_grow(d, k + 1);
                }
            }
            return None;
        }
        value = wide as u32;
        i = i + 1;
    }
    assert(d.take(i - start) =~= d);
    Some(value)
}

/// What is known of the process that a lock names.
pub enum Evidence {
    /// Its command line, where there is a process of that id.
    CommandLine(Option<String>),
    /// Seconds since the lock was last refreshed, where that can be told.
    LockAge(Option<u64>),
}

/// The evidence speaks for a live holder: another copy of this program, or a
/// heartbeat that is fresh.
pub open spec fn speaks_for_life(evidence: Evidence) -> bool {
    match evidence {
        Evidence::CommandLine(Some(cmd)) => text::contains(cmd@, "utterly"@),
        Evidence::CommandLine(None) => false,
        Evidence::LockAge(Some(secs)) => secs < STALE_SECS,
        Evidence::LockAge(None) => false,
    }
}

/// Whether the process that a lock names holds it still. Process 0 and this
/// process count as alive whatever else is known.
pub fn pid_alive(pid: u32, own: u32, evidence: &Evidence) -> (r: bool)
    ensures
        r == (pid == 0 || pid == own || speaks_for_life(*evidence)),
{
    if pid == 0 || pid == own {
        return true;
    }
    match evidence {
        Evidence::CommandLine(Some(cmd)) => text::has(cmd.as_str(), "utterly"),
        Evidence::CommandLine(None) => false,
        Evidence::LockAge(Some(secs)) => *secs < STALE_SECS,
        Evidence::LockAge(None) => false,
    }
}

/// What to do about a lock file that is already there.
#[derive(Debug, Clone, Copy, PartialEq, Eq, Structural)]
pub enum LockStep {
    /// Another copy is running, or that cannot be ruled out.
    Refuse,
    /// The holder is gone: remove the lock and try again.
    Steal,
}

/// What to do about a lock file that is already there, from the process id
/// that it names and what is known of that process.
pub fn judge_lock(holder: Option<u32>, own: u32, evidence: &Evidence) -> (r: LockStep)
    ensures
        r == LockStep::Steal <==> (holder matches Some(pid) && pid != 0 && pid != own
            && !speaks_for_life(*evidence)),
{
    match holder {
        Some(pid) => if pid_alive(pid, own, evidence) {
            LockStep::Refuse
        } else {
            LockStep::Steal
        },
        None => LockStep::Refuse,
    }
}

/// Every process id is read back from the text that names it.
pub proof fn law_pid_is_read_back(pid: u32, s: Seq<char>)
    requires
        s.len() > 0,
        all_digits(s),
        digits_value(s) == pid,
    ensures
        pid_in(s.push('\n')) == Some(pid as int),
        pid_in(s) == Some(pid as int),
{
    let none = Seq::<char>::empty();
    let nl = seq!['\n'];
    assert(all_digits(s) ==> !text::is_space(s[0]));
    assert(!text::is_space(s[s.len() - 1]));
    text::lemma_trimmed_padding(none, s, nl);
    assert(none + s + nl =~= s.push('\n'));
    assert(text::trimmed(s) == s) by {
        text::lemma_trimmed_solid_ends(s);
    }
}

/// Decimal digits spell a number place by place: a digit behind others adds its
/// value to ten times theirs.
pub proof fn law_digits_spell_a_number(s: Seq<char>, c: char)
    requires
        '0' <= c <= '9',
    ensures
        digits_value(s.push(c)) == 10 * digits_value(s) + (c as int - '0' as int),
        digits_value(Seq::empty()) == 0,
        all_digits(s.push(c)) <==> all_digits(s),
{
    let t = s.push(c);
    assert(t.drop_last() =~= s);
    assert(t.last() == c);
    if all_digits(t) {
        assert forall|i: int| 0 <= i < s.len() implies '0' <= #[trigger] s[i] <= '9' by {
            assert(t[i] == s[i]);
        }
    }
    if all_digits(s) {
        assert forall|i: int| 0 <= i < t.len() implies '0' <= #[trigger] t[i] <= '9' by {
            if i < s.len() {
                assert(t[i] == s[i]);
            }
        }
    }
}

/// A lock that names no number of 32 bits names no process: neither one that is
/// too large, nor a text with anything but digits behind an optional plus sign,
/// nor nothing at all.
pub proof fn law_only_a_number_is_a_process(s: Seq<char>)
    requires
        s.len() > 0 ==> !text::is_space(s[0]) && !text::is_space(s[s.len() - 1]),
    ensures
        s.len() == 0 ==> pid_in(s) is None,
        (exists|i: int| 1 <= i < s.len() && !('0' <= #[trigger] s[i] <= '9')) ==> pid_in(s) is None,
        s.len() > 0 && s[0] != '+' && !('0' <= s[0] <= '9') ==> pid_in(s) is None,
        s.len() == 1 && s[0] == '+' ==> pid_in(s) is None,
        all_digits(s) && digits_value(s) > u32::MAX ==> pid_in(s) is None,
        pid_in(s) matches Some(pid) ==> 0 <= pid <= u32::MAX,
{
    text::lemma_trimmed_solid_ends(s);
    let d = without_plus(s);
    if exists|i: int| 1 <= i < s.len() && !('0' <= #[trigger] s[i] <= '9') {
        let i = choose|i: int| 1 <= i < s.len() && !('0' <= #[trigger] s[i] <= '9');
        if s[0] == '+' {
            assert(d[i - 1] == s[i]);
        } else {
            assert(d[i] == s[i]);
        }
    }
    if s.len() > 0 && s[0] != '+' && !('0' <= s[0] <= '9') {
        assert(d[0] == s[0]);
    }
    if all_digits(s) && s.len() > 0 {
        assert('0' <= s[0] <= '9');
    }
    if all_digits(d) {
        lemma_digits_grow(d, d.len() as int);
        assert(d.take(d.len() as int) =~= d);
    }
}

/// A plus sign before a number makes no difference.
pub proof fn law_plus_makes_no_difference(s: Seq<char>)
    requires
        s.len() > 0,
        all_digits(s),
    ensures
        pid_in(seq!['+'] + s) == pid_in(s),
{
    let t = seq!['+'] + s;
    assert(t.drop_first() =~= s);
    assert('0' <= s[0] <= '9' && '0' <= s[s.len() - 1] <= '9');
    assert(t[t.len() - 1] == s[s.len() - 1]);
    text::lemma_trimmed_solid_ends(s);
    text::lemma_trimmed_solid_ends(t);
}

/// A holder lives where its command line names this program, whatever stands
/// around the name, or where its heartbeat is less than 90 seconds old; where
/// nothing is known of it, it does not.
pub proof fn law_signs_of_life(cmd: String, secs: u64)
    ensures
        speaks_for_life(Evidence::CommandLine(Some(cmd))) <==> text::contains(cmd@, "utterly"@),
        !speaks_for_life(Evidence::CommandLine(None)),
        speaks_for_life(Evidence::LockAge(Some(secs))) <==> secs < 90,
        !speaks_for_life(Evidence::LockAge(None)),
{
}

} // verus!
