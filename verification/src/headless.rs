//! Running a cartridge without a window: step the machine until the serial
//! log reports a result (test ROMs print "Passed" or "Failed" through the
//! link port), a cycle budget runs out, or an opcode cannot be executed.
use vstd::prelude::*;
use vstd::utf8::{encode_utf8, encode_scalar};
use vstd::std_specs::iter::IteratorSpec;
use crate::cpu::{Cpu, CpuState, steps, lemma_step_serial, lemma_step_cycles};
use crate::memory::serial_grows;

verus! {

/// `w` occurs in `s` as a contiguous run of characters.
pub open spec fn has_infix(s: Seq<char>, w: Seq<char>) -> bool {
    exists|i: int| 0 <= i && i + w.len() <= s.len() && #[trigger] s.subrange(i, i + w.len()) == w
}

/// The word a test ROM prints when it passes.
pub open spec fn passed_word() -> Seq<char> {
    seq!['P', 'a', 's', 's', 'e', 'd']
}

/// The word a test ROM prints when it fails.
pub open spec fn failed_word() -> Seq<char> {
    seq!['F', 'a', 'i', 'l', 'e', 'd']
}

/// The serial log holds a verdict.
pub open spec fn reported(serial: Seq<char>) -> bool {
    has_infix(serial, passed_word()) || has_infix(serial, failed_word())
}

/// Why a headless run stopped.
#[derive(Debug, Clone, Copy, PartialEq, Eq, Structural)]
pub enum RunEnd {
    /// The serial log reports "Passed" or "Failed".
    Reported,
    /// The cycle counter reached the budget first.
    CycleLimit,
    /// The next opcode is undefined (or the cycle counter has no room).
    Stuck,
}

/// The characters of `s`, in order.
pub(crate) fn chars_of(s: &str) -> (v: Vec<char>)
    ensures
        v@ == s@,
{
    let mut it = s.chars();
    let mut v: Vec<char> = Vec::new();
    loop
        invariant
            v@ + it.remaining() == s@,
            it.obeys_prophetic_iter_laws(),
            it.decrease() is Some,
        decreases it.decrease()->0,
    {
        match it.next() {
            Some(c) => {
                v.push(c);
            },
            None => {
                assert(v@ =~= s@);
                return v;
            },
        }
    }
}

/// Whether `w` occurs in `s` as a contiguous run.
fn contains_chars(s: &Vec<char>, w: &[char]) -> (r: bool)
    ensures
        r == has_infix(s@, w@),
{
    if w.len() > s.len() {
        return false;
    }
    let last = s.len() - w.len();
    let mut i: usize = 0;
    loop
        invariant
            s@.len() <= usize::MAX,
            w@.len() <= s@.len(),
            last == s@.len() - w@.len(),
            i <= last,
            forall|k: int| 0 <= k < i ==> #[trigger] s@.subrange(k, k + w@.len()) != w@,
        decreases last - i,
    {
        let mut j: usize = 0;
        let mut same = true;
        while j < w.len()
            invariant
                s@.len() <= usize::MAX,
                w@.len() <= s@.len(),
                i <= last,
                last == s@.len() - w@.len(),
                j <= w@.len(),
                same <==> forall|t: int| 0 <= t < j ==> s@[i + t] == w@[t],
            decreases w.len() - j,
        {
            if s[i + j] != w[j] {
                same = false;
            }
            j += 1;
        }
        if same {
            assert(s@.subrange(i as int, i + w@.len()) =~= w@);
            return true;
        }
        assert(s@.subrange(i as int, i + w@.len()) != w@) by {
            let t = choose|t: int| 0 <= t < w@.len() && s@[i + t] != w@[t];
            assert(s@.subrange(i as int, i + w@.len())[t] == s@[i + t]);
        }
        if i == last {
            return false;
        }
        i += 1;
    }
}

/// Whether a serial log reports a verdict ("Passed" or "Failed").
pub fn serial_reports(serial: &String) -> (r: bool)
    ensures
        r == reported(serial@),
{
    let chars = chars_of(serial.as_str());
    let passed = ['P', 'a', 's', 's', 'e', 'd'];
    let failed = ['F', 'a', 'i', 'l', 'e', 'd'];
    assert(passed@ =~= passed_word());
    assert(failed@ =~= failed_word());
    contains_chars(&chars, passed.as_slice()) || contains_chars(&chars, failed.as_slice())
}

/// Appending a character lengthens the UTF-8 encoding.
proof fn lemma_encode_push(s: Seq<char>, c: char)
    ensures
        encode_utf8(s.push(c)) == encode_utf8(s) + encode_scalar(c as u32),
        encode_scalar(c as u32).len() >= 1,
    decreases s.len(),
{
    if s.len() == 0 {
        assert(s.push(c).drop_first() =~= Seq::<char>::empty());
        assert(encode_utf8(Seq::<char>::empty()) =~= Seq::<u8>::empty());
        assert(encode_utf8(s) =~= Seq::<u8>::empty());
        assert(encode_utf8(s.push(c)) =~= encode_scalar(c as u32) + encode_utf8(Seq::<char>::empty()));
        assert(encode_utf8(s.push(c)) =~= encode_utf8(s) + encode_scalar(c as u32));
    } else {
        lemma_encode_push(s.drop_first(), c);
        assert(s.push(c).drop_first() =~= s.drop_first().push(c));
        assert(encode_utf8(s.push(c)) =~= encode_utf8(s) + encode_scalar(c as u32));
    }
}

/// Appending characters lengthens the UTF-8 encoding by at least one byte each.
proof fn lemma_encode_append(a: Seq<char>, b: Seq<char>)
    ensures
        encode_utf8(a + b).len() >= encode_utf8(a).len() + b.len(),
    decreases b.len(),
{
    if b.len() == 0 {
        assert(a + b =~= a);
    } else {
        let b1 = b.drop_last();
        let c = b.last();
        lemma_encode_append(a, b1);
        assert(a + b =~= (a + b1).push(c));
        lemma_encode_push(a + b1, c);
    }
}

/// A grown log whose byte length is unchanged is unchanged.
proof fn lemma_same_length_same_log(before: Seq<char>, after: Seq<char>)
    requires
        serial_grows(before, after),
        encode_utf8(after).len() == encode_utf8(before).len(),
    ensures
        after == before,
{
    let suffix = after.subrange(before.len() as int, after.len() as int);
    assert(after =~= before + suffix);
    lemma_encode_append(before, suffix);
    assert(after =~= before);
}

/// A verdict already in the log stays there as the log grows.
proof fn lemma_reported_stays(before: Seq<char>, after: Seq<char>)
    requires
        serial_grows(before, after),
        reported(before),
    ensures
        reported(after),
{
    let w = if has_infix(before, passed_word()) { passed_word() } else { failed_word() };
    let i = choose|i: int| 0 <= i && i + w.len() <= before.len() && #[trigger] before.subrange(i, i + w.len()) == w;
    assert(after.subrange(i, i + w.len()) =~= before.subrange(i, i + w.len()));
}

/// A verdict in the serial log stays there: every later state of the
/// machine still reports it.
pub proof fn lemma_verdict_persists(s: CpuState, k: nat)
    requires
        reported(s.memory.serial),
        forall|j: nat| j < k ==> (#[trigger] steps(s, j)).step_ok(),
    ensures
        reported(steps(s, k).memory.serial),
    decreases k,
{
    if k > 0 {
        lemma_verdict_persists(s, (k - 1) as nat);
        let prev = steps(s, (k - 1) as nat);
        lemma_step_serial(prev);
        lemma_reported_stays(prev.memory.serial, prev.step().memory.serial);
    }
}

/// An empty log holds no verdict.
proof fn lemma_empty_not_reported(s: Seq<char>)
    requires
        s.len() == 0,
    ensures
        !reported(s),
{
}

/// Step until the serial log reports a verdict, the cycle counter reaches
/// `max_cycles`, or the next step cannot be taken. The log is checked after
/// every step (it is rescanned only when its length changed).
#[verifier::spinoff_prover]
pub fn run_until_report(cpu: &mut Cpu, max_cycles: u64) -> (r: RunEnd)
    requires
        old(cpu)@.memory.inv(),
        max_cycles + 24 <= u64::MAX,
    ensures
        final(cpu)@.memory.inv(),
        // k steps were taken, each allowed and started below the budget, and
        // none of the states after them but the last reports a verdict
        exists|k: nat|
            {
                &&& final(cpu)@ == steps(old(cpu)@, k)
                &&& forall|j: nat| j < k ==> (#[trigger] steps(old(cpu)@, j)).step_ok()
                    && steps(old(cpu)@, j).cycles < max_cycles
                &&& forall|j: nat| 1 <= j < k ==> !reported((#[trigger] steps(old(cpu)@, j)).memory.serial)
                &&& (r == RunEnd::Reported <==> k >= 1 && reported(final(cpu)@.memory.serial))
            },
        r == RunEnd::CycleLimit ==> final(cpu).cycles >= max_cycles,
        r == RunEnd::Stuck ==> final(cpu).cycles < max_cycles && !final(cpu)@.step_ok(),
{
    let ghost start: CpuState = cpu@;
    let ghost mut k: nat = 0;
    let mut last_len: usize = 0;
    while cpu.cycles < max_cycles
        invariant
            cpu@.memory.inv(),
            start == old(cpu)@,
            max_cycles + 24 <= u64::MAX,
            k >= 1 ==> cpu.cycles < max_cycles + 24,
            cpu@ == steps(start, k),
            forall|j: nat| j < k ==> (#[trigger] steps(start, j)).step_ok() && steps(start, j).cycles < max_cycles,
            forall|j: nat| 1 <= j <= k ==> !reported((#[trigger] steps(start, j)).memory.serial),
            k == 0 ==> last_len == 0,
            k >= 1 ==> last_len == encode_utf8(cpu@.memory.serial).len(),
        decreases max_cycles + 24 - cpu.cycles,
    {
        if !cpu.can_step() {
            return RunEnd::Stuck;
        }
        let ghost before: CpuState = cpu@;
        proof {
            lemma_step_cycles(before);
            lemma_step_serial(before);
        }
        cpu.step();
        proof {
            k = k + 1;
            assert forall|j: nat| j < k implies (#[trigger] steps(start, j)).step_ok()
                && steps(start, j).cycles < max_cycles by {
                if j < k - 1 {
                    assert(steps(start, j).step_ok());
                }
            }
        }
        let len = cpu.memory.serial_log().as_str().as_bytes().len();
        if len != last_len {
            last_len = len;
            if serial_reports(cpu.memory.serial_log()) {
                proof {
                    assert forall|j: nat| 1 <= j < k implies !reported((#[trigger] steps(start, j)).memory.serial) by {
                    }
                    assert(cpu@ == steps(old(cpu)@, k));
                    assert(reported(cpu@.memory.serial));
                }
                return RunEnd::Reported;
            }
        } else {
            proof {
                if k == 1 {
                    assert(encode_utf8(cpu@.memory.serial).len() == 0);
                    if cpu@.memory.serial.len() > 0 {
                        let s = cpu@.memory.serial;
                        assert(s == s.drop_last().push(s.last()));
                        lemma_encode_push(s.drop_last(), s.last());
                    }
                    lemma_empty_not_reported(cpu@.memory.serial);
                } else {
                    lemma_same_length_same_log(before.memory.serial, cpu@.memory.serial);
                }
            }
        }
        proof {
            assert forall|j: nat| 1 <= j <= k implies !reported((#[trigger] steps(start, j)).memory.serial) by {
                if j < k {
                    assert(1 <= j <= k - 1);
                }
            }
        }
    }
    RunEnd::CycleLimit
}

} // verus!
