//! What the supervisor reads from and decides about control groups.
//!
//! A control group is a directory of the cgroup2 file system; the supervisor
//! reads its `cgroup.events`, `cgroup.freeze` and `cgroup.procs` files and
//! writes to them.  The file contents are interpreted here.
use vstd::prelude::*;
use vstd::string::StringSliceAdditionalSpecFns;
use crate::records::Irq;

verus! {

/// A control group, named by the path of its directory (the bytes of the
/// path, which need not be UTF-8).
pub struct CGroup {
    pub path: Vec<u8>,
}

/// `pat` occurs in `hay` at position `i`.
pub open spec fn occurs_at(hay: Seq<u8>, pat: Seq<u8>, i: int) -> bool {
    0 <= i && i + pat.len() <= hay.len() && hay.subrange(i, i + pat.len()) == pat
}

/// `pat` occurs somewhere in `hay`.
pub open spec fn occurs_in(hay: Seq<u8>, pat: Seq<u8>) -> bool {
    exists|i: int| occurs_at(hay, pat, i)
}

/// The line of `cgroup.events` that says processes live in the group:
/// `populated 1` and a newline.
pub open spec fn populated_line() -> Seq<u8> {
    seq![112u8, 111, 112, 117, 108, 97, 116, 101, 100, 32, 49, 10]
}

/// The bytes of `populated `: the key of the populated line and its space.
pub open spec fn populated_key() -> Seq<u8> {
    seq![112u8, 111, 112, 117, 108, 97, 116, 101, 100, 32]
}

/// The populated line is the key `populated`, a space, the digit `1` and a
/// newline; so contents count as populated exactly when, somewhere, the key is
/// followed by `1` and a newline, and contents whose populated key is always
/// followed by `0` never count as populated, whatever the other keys say.
pub proof fn law_populated_line(hay: Seq<u8>)
    ensures
        populated_line().len() == 12,
        populated_line().subrange(0, 10) == populated_key(),
        populated_line()[10] == 49u8,
        populated_line()[11] == 10u8,
        occurs_in(hay, populated_line()) == exists|i: int|
            0 <= i && i + 12 <= hay.len() && #[trigger] hay.subrange(i, i + 10) == populated_key()
                && hay[i + 10] == 49u8 && hay[i + 11] == 10u8,
        (forall|i: int|
            0 <= i && i + 10 < hay.len() && #[trigger] hay.subrange(i, i + 10) == populated_key()
                ==> hay[i + 10] == 48u8) ==> !occurs_in(hay, populated_line()),
{
    let line = populated_line();
    assert(line.subrange(0, 10) =~= populated_key());
    assert forall|i: int| occurs_at(hay, line, i) implies hay.subrange(i, i + 10) == populated_key()
        && hay[i + 10] == 49u8 && hay[i + 11] == 10u8 by {
        assert(hay.subrange(i, i + 10) =~= hay.subrange(i, i + 12).subrange(0, 10));
        assert(hay.subrange(i, i + 12)[10] == hay[i + 10]);
        assert(hay.subrange(i, i + 12)[11] == hay[i + 11]);
    }
    assert forall|i: int|
        0 <= i && i + 12 <= hay.len() && #[trigger] hay.subrange(i, i + 10) == populated_key()
            && hay[i + 10] == 49u8 && hay[i + 11] == 10u8 implies occurs_at(hay, line, i) by {
        assert forall|k: int| 0 <= k < 10 implies hay[i + k] == line[k] by {
            assert(hay.subrange(i, i + 10)[k] == hay[i + k]);
        }
        assert(hay.subrange(i, i + 12) =~= line);
    }
    if occurs_in(hay, line) {
        let i = choose|i: int| occurs_at(hay, line, i);
        assert(hay.subrange(i, i + 10) == populated_key());
    }
}

/// The contents of `cgroup.freeze` of a frozen group: `1` and a newline.
pub open spec fn frozen_contents() -> Seq<u8> {
    seq![49u8, 10]
}

/// Whether `pat` occurs in `hay`.
pub fn find_bytes(hay: &[u8], pat: &[u8]) -> (found: bool)
    ensures
        found == occurs_in(hay@, pat@),
{
    if pat.len() > hay.len() {
        assert forall|i: int| !occurs_at(hay@, pat@, i) by {}
        return false;
    }
    let hay_len = hay.len();
    let last = hay_len - pat.len();
    let mut i: usize = 0;
    while i <= last
        invariant
            last == hay@.len() - pat@.len(),
            hay_len == hay@.len(),
            i <= last + 1,
            forall|k: int| 0 <= k < i ==> !#[trigger] occurs_at(hay@, pat@, k),
        decreases last + 1 - i,
    {
        let mut j: usize = 0;
        while j < pat.len() && hay[i + j] == pat[j]
            invariant
                i <= last,
                last == hay@.len() - pat@.len(),
                hay_len == hay@.len(),
                j <= pat@.len(),
                forall|m: int| 0 <= m < j ==> hay@[i + m] == pat@[m],
            decreases pat@.len() - j,
        {
            j = j + 1;
        }
        if j == pat.len() {
            assert(hay@.subrange(i as int, i + pat@.len()) =~= pat@);
            assert(occurs_at(hay@, pat@, i as int));
            return true;
        }
        assert(!occurs_at(hay@, pat@, i as int)) by {
            if occurs_at(hay@, pat@, i as int) {
                assert(hay@.subrange(i as int, i + pat@.len())[j as int] == hay@[i + j]);
            }
        }
        i = i + 1;
    }
    assert forall|k: int| !occurs_at(hay@, pat@, k) by {
        if 0 <= k < i {
        }
    }
    false
}

impl CGroup {
    /// A control group with directory `path`.
    pub fn new(path: Vec<u8>) -> (g: Self)
        ensures
            g.path@ == path@,
    {
        CGroup { path }
    }

    /// Whether the contents of `cgroup.events` say that processes live in the
    /// group.
    pub fn events_populated(events: &str) -> (populated: bool)
        ensures
            populated == occurs_in(events.spec_bytes(), populated_line()),
            populated == exists|i: int|
                0 <= i && i + 12 <= events.spec_bytes().len() && #[trigger] events.spec_bytes().subrange(
                    i,
                    i + 12,
                ) == seq![112u8, 111, 112, 117, 108, 97, 116, 101, 100, 32, 49, 10],
    {
        let line: [u8; 12] = [112u8, 111, 112, 117, 108, 97, 116, 101, 100, 32, 49, 10];
        assert(line@ =~= populated_line());
        let found = find_bytes(events.as_bytes(), &line);
        proof {
            let hay = events.spec_bytes();
            let lit = seq![112u8, 111, 112, 117, 108, 97, 116, 101, 100, 32, 49, 10];
            assert(populated_line() =~= lit);
            assert(populated_line().len() == 12);
            if found {
                let i = choose|i: int| occurs_at(hay, populated_line(), i);
                assert(hay.subrange(i, i + 12) == lit);
            } else {
                assert forall|i: int|
                    0 <= i && i + 12 <= hay.len() implies #[trigger] hay.subrange(i, i + 12) != lit by {
                    assert(!occurs_at(hay, populated_line(), i));
                }
            }
        }
        found
    }

    /// Whether the contents of `cgroup.freeze` say that the group is frozen:
    /// exactly `1` and a newline.
    pub fn freeze_contents_frozen(contents: &[u8]) -> (frozen: bool)
        ensures
            frozen == (contents@ == frozen_contents()),
    {
        if contents.len() == 2 && contents[0] == 49 && contents[1] == 10 {
            assert(contents@ =~= frozen_contents());
            true
        } else {
            assert(contents@ != frozen_contents() || (contents@.len() == 2 && contents@[0] == 49
                && contents@[1] == 10));
            false
        }
    }
}

/// The name of the cgroup2 file system type: `cgroup2`.
pub open spec fn cgroup2_name() -> Seq<u8> {
    seq![99u8, 103, 114, 111, 117, 112, 50]
}

/// Whether `a` and `b` hold the same bytes.
pub fn bytes_equal(a: &[u8], b: &[u8]) -> (eq: bool)
    ensures
        eq == (a@ == b@),
{
    if a.len() != b.len() {
        return false;
    }
    let mut i: usize = 0;
    while i < a.len()
        invariant
            i <= a@.len(),
            a@.len() == b@.len(),
            forall|k: int| 0 <= k < i ==> a@[k] == b@[k],
        decreases a@.len() - i,
    {
        if a[i] != b[i] {
            return false;
        }
        i = i + 1;
    }
    assert(a@ =~= b@);
    true
}

/// The position of the first mount whose file system type is cgroup2, given
/// the mounts' types in order; `None` when there is none.
pub fn first_cgroup2_mount(fs_types: &Vec<Vec<u8>>) -> (idx: Option<usize>)
    ensures
        match idx {
            Some(i) => i < fs_types@.len() && fs_types@[i as int]@ == cgroup2_name() && forall|k: int|
                0 <= k < i ==> #[trigger] fs_types@[k]@ != cgroup2_name(),
            None => forall|k: int| 0 <= k < fs_types@.len() ==> #[trigger] fs_types@[k]@ != cgroup2_name(),
        },
{
    let name: [u8; 7] = [99u8, 103, 114, 111, 117, 112, 50];
    assert(name@ =~= cgroup2_name());
    let mut i: usize = 0;
    while i < fs_types.len()
        invariant
            i <= fs_types@.len(),
            name@ == cgroup2_name(),
            forall|k: int| 0 <= k < i ==> #[trigger] fs_types@[k]@ != cgroup2_name(),
        decreases fs_types@.len() - i,
    {
        if bytes_equal(fs_types[i].as_slice(), &name) {
            return Some(i);
        }
        i = i + 1;
    }
    None
}

/// The position of the first cgroup entry of a process that belongs to the
/// unified hierarchy (hierarchy 0), given the entries' hierarchies in order.
pub fn first_unified_cgroup(hierarchies: &Vec<u32>) -> (idx: Option<usize>)
    ensures
        match idx {
            Some(i) => i < hierarchies@.len() && hierarchies@[i as int] == 0 && forall|k: int|
                0 <= k < i ==> #[trigger] hierarchies@[k] != 0,
            None => forall|k: int| 0 <= k < hierarchies@.len() ==> #[trigger] hierarchies@[k] != 0,
        },
{
    let mut i: usize = 0;
    while i < hierarchies.len()
        invariant
            i <= hierarchies@.len(),
            forall|k: int| 0 <= k < i ==> #[trigger] hierarchies@[k] != 0,
        decreases hierarchies@.len() - i,
    {
        if hierarchies[i] == 0 {
            return Some(i);
        }
        i = i + 1;
    }
    None
}

/// How long killing a group may take before it counts as failed: one second.
pub const KILL_TIMEOUT_NANOS: u64 = 1_000_000_000;

/// Whether, `elapsed` nanoseconds after the kill was written, the supervisor
/// keeps waiting for the group to empty: only before the timeout.
pub fn kill_wait_continues(elapsed: u64) -> (wait: bool)
    ensures
        wait == (elapsed < KILL_TIMEOUT_NANOS),
{
    elapsed < KILL_TIMEOUT_NANOS
}

/// What the supervisor does to a group on request `irq`, given whether the
/// group is frozen now: freeze it when asked to and it is not frozen, thaw it
/// when asked to and it is frozen, and otherwise nothing.
pub open spec fn spec_group_action(irq: Irq, frozen: bool) -> Option<Irq> {
    match irq {
        Irq::Freeze(id) => if !frozen { Some(Irq::Freeze(id)) } else { None },
        Irq::Unfreeze(id) => if frozen { Some(Irq::Unfreeze(id)) } else { None },
    }
}

/// The change to make to a group on request `irq`.
pub fn group_action(irq: Irq, frozen: bool) -> (action: Option<Irq>)
    ensures
        action == spec_group_action(irq, frozen),
{
    match irq {
        Irq::Freeze(id) => if !frozen { Some(Irq::Freeze(id)) } else { None },
        Irq::Unfreeze(id) => if frozen { Some(Irq::Unfreeze(id)) } else { None },
    }
}

} // verus!
