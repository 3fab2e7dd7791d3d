//! The flash programmer.
//!
//! A `FlashProgrammer` drives a whole flash job as a step machine: the front
//! end repeatedly asks for the next host action (an interface reset or a
//! command plan), performs it on the USB stack, and hands read-back data
//! here for verification. Every decision — initialization order, per-sector
//! erase-on-first-touch, write, read-back compare, final reboot — is made
//! and verified here, over a ghost history of the operations issued.

use vstd::prelude::*;

use crate::PICO_FLASH_START;
use crate::PICO_SECTOR_SIZE;
use crate::TargetID;
use crate::cmd::spec_range_args;
use crate::cmd::spec_reboot2_args;
use crate::cmd::spec_reboot_args;
use crate::cmd::spec_zeros;
use crate::session::CmdPlan;
use crate::session::PicobootConnection;
use crate::session::spec_frame_bytes;

verus! {

/// Largest page count whose last page still fits below the 32-bit address
/// ceiling when laid out from the flash base.
pub const MAX_PAGE_COUNT: usize = 0x00F00000;

/// Errors of the flash programmer.
#[derive(Debug, Clone, Copy, PartialEq, Eq, Structural)]
pub enum FlashError {
    /// A read-back page differed from what was written.
    VerifyFailed,
}

/// The kind of one recorded host operation.
#[derive(Debug, Clone, Copy, PartialEq, Eq, Structural)]
pub enum FlashOpKind {
    /// The vendor interface-reset control request.
    ResetIface,
    /// The ExclusiveAccess command.
    Exclusive,
    /// The ExitXip command.
    ExitXip,
    /// A FlashErase command.
    Erase,
    /// A Write command.
    Write,
    /// A Read command.
    Read,
    /// The final reboot command, either flavour.
    Reboot,
}

/// One host operation, as recorded in the programmer's history.
#[derive(Debug, Clone, Copy, PartialEq, Eq, Structural)]
pub struct FlashOp {
    pub kind: FlashOpKind,
    pub addr: u32,
    pub size: u32,
}

/// What the programmer does next.
#[derive(Debug, Clone, Copy, PartialEq, Eq, Structural)]
pub enum Stage {
    /// Issue the interface-reset control request.
    ResetIface,
    /// Issue ExclusiveAccess in exclusive-eject mode.
    Exclusive,
    /// Issue ExitXip.
    ExitXip,
    /// Start the current page: erase its sector if untouched, else write.
    PageStart,
    /// Write the current page (its sector has been erased).
    PageWrite,
    /// Read the current page back.
    PageRead,
    /// Wait for the read-back bytes of the current page.
    AwaitData,
    /// All pages verified: issue the final reboot.
    Reboot,
    /// The job finished and the reboot was issued.
    Done,
    /// A read-back mismatch stopped the job; no reboot will be issued.
    Failed,
}

/// A single action the front end must perform next.
pub enum HostAction {
    /// The vendor interface-reset control-out request, before any bulk
    /// traffic.
    ResetInterface,
    /// One PICOBOOT command, as a transfer plan. If the plan has a
    /// device-to-host data phase, the bytes it returns must be handed to
    /// `provide_read`.
    Cmd(CmdPlan),
}

/// True when every page is exactly 256 bytes.
pub fn pages_well_sized(pages: &Vec<Vec<u8>>) -> (r: bool)
    ensures
        r == (forall|p: int| 0 <= p < pages@.len() ==> (#[trigger] pages@[p])@.len() == 256),
{
    let mut p: usize = 0;
    while p < pages.len()
        invariant
            0 <= p <= pages@.len(),
            forall|q: int| 0 <= q < p ==> (#[trigger] pages@[q])@.len() == 256,
        decreases pages@.len() - p,
    {
        if pages[p].len() != 256 {
            return false;
        }
        p += 1;
    }
    true
}

/// The flash address of page `i`.
pub open spec fn spec_page_addr(i: int) -> int {
    PICO_FLASH_START + 256 * i
}

/// The base address of the 4096-byte sector around `a`.
pub open spec fn spec_sector_base(a: u32) -> u32 {
    (a - a % 4096) as u32
}

/// The sector bases of the erase operations in `h`, in order of issue.
pub open spec fn spec_erase_bases(h: Seq<FlashOp>) -> Seq<u32>
    decreases h.len(),
{
    if h.len() == 0 {
        Seq::empty()
    } else if h.last().kind is Erase {
        spec_erase_bases(h.drop_last()).push(spec_sector_base(h.last().addr))
    } else {
        spec_erase_bases(h.drop_last())
    }
}

/// The protocol laws over a history of issued operations:
///
/// - every write's sector was erased by an earlier operation;
/// - every write is 256 bytes and, unless it is the last operation, is
///   directly followed by a read of the same address and length;
/// - the history opens with the interface reset, the exclusive-access
///   command and ExitXip, and flash operations come only after those three.
///
/// One erase per sector is carried separately, as freedom from duplicates
/// of `spec_erase_bases`.
pub open spec fn spec_history_wf(h: Seq<FlashOp>) -> bool {
    &&& (forall|k: int|
        0 <= k < h.len() && (#[trigger] h[k]).kind is Write ==> spec_erase_bases(
            h.take(k),
        ).contains(spec_sector_base(h[k].addr)))
    &&& (forall|k: int| 0 <= k < h.len() && (#[trigger] h[k]).kind is Write ==> h[k].size == 256)
    &&& (forall|k: int, k2: int|
        0 <= k && k2 == k + 1 && k2 < h.len() && (#[trigger] h[k]).kind is Write ==> (
        #[trigger] h[k2]).kind is Read && h[k2].addr == h[k].addr && h[k2].size == h[k].size)
    &&& (h.len() >= 1 ==> h[0].kind is ResetIface)
    &&& (h.len() >= 2 ==> h[1].kind is Exclusive)
    &&& (h.len() >= 3 ==> h[2].kind is ExitXip)
    &&& (forall|k: int|
        0 <= k < h.len() && ((#[trigger] h[k]).kind is Erase || h[k].kind is Write || h[k].kind
            is Read || h[k].kind is Reboot) ==> k >= 3)
}

/// No two entries of `s` are equal.
pub open spec fn spec_distinct(s: Seq<u32>) -> bool {
    forall|e1: int, e2: int| 0 <= e1 < e2 < s.len() ==> #[trigger] s[e1] != #[trigger] s[e2]
}

/// A value is among the erase bases exactly when some erase with that
/// sector base is in the history.
pub proof fn lemma_erase_bases_contains(h: Seq<FlashOp>, x: u32)
    ensures
        spec_erase_bases(h).contains(x) <==> (exists|j: int|
            0 <= j < h.len() && (#[trigger] h[j]).kind is Erase && spec_sector_base(h[j].addr)
                == x),
    decreases h.len(),
{
    if h.len() == 0 {
        assert(!spec_erase_bases(h).contains(x));
    } else {
        let hp = h.drop_last();
        let b = spec_erase_bases(h);
        let bp = spec_erase_bases(hp);
        lemma_erase_bases_contains(hp, x);
        assert(forall|j: int| 0 <= j < hp.len() ==> #[trigger] hp[j] == h[j]);
        if b.contains(x) {
            let i = choose|i: int| 0 <= i < b.len() && b[i] == x;
            if i < bp.len() {
                assert(bp[i] == x);
                assert(bp.contains(x));
                let j = choose|j: int|
                    0 <= j < hp.len() && (#[trigger] hp[j]).kind is Erase && spec_sector_base(
                        hp[j].addr,
                    ) == x;
                assert(h[j].kind is Erase && spec_sector_base(h[j].addr) == x);
            } else {
                assert(h.last().kind is Erase && spec_sector_base(h.last().addr) == x);
                assert(h[h.len() - 1].kind is Erase && spec_sector_base(h[h.len() - 1].addr) == x);
            }
        }
        if exists|j: int|
            0 <= j < h.len() && (#[trigger] h[j]).kind is Erase && spec_sector_base(h[j].addr)
                == x {
            let j = choose|j: int|
                0 <= j < h.len() && (#[trigger] h[j]).kind is Erase && spec_sector_base(h[j].addr)
                    == x;
            if j < h.len() - 1 {
                assert(hp[j].kind is Erase && spec_sector_base(hp[j].addr) == x);
                assert(bp.contains(x));
                let i = choose|i: int| 0 <= i < bp.len() && bp[i] == x;
                assert(b[i] == x);
                assert(b.contains(x));
            } else {
                assert(h.last().kind is Erase);
                assert(b.last() == x);
                assert(b.contains(x));
            }
        }
    }
}

/// With distinct erase bases, two different erases never share a sector.
pub proof fn lemma_two_erases_distinct(h: Seq<FlashOp>, j: int, k: int)
    requires
        spec_distinct(spec_erase_bases(h)),
        0 <= j < k < h.len(),
        h[j].kind is Erase,
        h[k].kind is Erase,
    ensures
        spec_sector_base(h[j].addr) != spec_sector_base(h[k].addr),
    decreases h.len(),
{
    let hp = h.drop_last();
    let b = spec_erase_bases(h);
    let bp = spec_erase_bases(hp);
    assert(forall|q: int| 0 <= q < hp.len() ==> #[trigger] hp[q] == h[q]);
    if k == h.len() - 1 {
        lemma_erase_bases_contains(hp, spec_sector_base(h[j].addr));
        assert(hp[j].kind is Erase && spec_sector_base(hp[j].addr) == spec_sector_base(h[j].addr));
        assert(bp.contains(spec_sector_base(h[j].addr)));
        let i = choose|i: int| 0 <= i < bp.len() && bp[i] == spec_sector_base(h[j].addr);
        assert(b[i] == spec_sector_base(h[j].addr));
        assert(b.last() == spec_sector_base(h[k].addr));
        assert(b[b.len() - 1] == spec_sector_base(h[k].addr));
    } else {
        assert(spec_distinct(bp)) by {
            assert(forall|e1: int, e2: int|
                0 <= e1 < e2 < bp.len() ==> #[trigger] bp[e1] == b[e1] && #[trigger] bp[e2]
                    == b[e2]);
        }
        lemma_two_erases_distinct(hp, j, k);
    }
}

/// No reboot has been issued.
pub open spec fn spec_no_reboot(h: Seq<FlashOp>) -> bool {
    forall|k: int| 0 <= k < h.len() ==> !((#[trigger] h[k]).kind is Reboot)
}

/// Appending one admissible operation keeps the protocol laws. The erase
/// bases gain the operation's sector base exactly when it is an erase.
proof fn lemma_history_push(h: Seq<FlashOp>, op: FlashOp)
    requires
        spec_history_wf(h),
        spec_distinct(spec_erase_bases(h)),
        op.kind is Erase ==> !spec_erase_bases(h).contains(spec_sector_base(op.addr)),
        op.kind is Write ==> op.size == 256 && spec_erase_bases(h).contains(
            spec_sector_base(op.addr),
        ),
        (op.kind is Erase || op.kind is Write || op.kind is Read || op.kind is Reboot) ==> h.len()
            >= 3,
        h.len() == 0 ==> op.kind is ResetIface,
        h.len() == 1 ==> op.kind is Exclusive,
        h.len() == 2 ==> op.kind is ExitXip,
        h.len() > 0 && h.last().kind is Write ==> op.kind is Read && op.addr == h.last().addr
            && op.size == h.last().size,
    ensures
        spec_history_wf(h.push(op)),
        spec_erase_bases(h.push(op)) == (if op.kind is Erase {
            spec_erase_bases(h).push(spec_sector_base(op.addr))
        } else {
            spec_erase_bases(h)
        }),
        spec_distinct(spec_erase_bases(h.push(op))),
{
    let h1 = h.push(op);
    let n = h.len() as int;
    let b = spec_erase_bases(h);
    assert(h1.len() == n + 1);
    assert(h1[n] == op);
    assert(forall|j: int| 0 <= j < n ==> #[trigger] h1[j] == h[j]);
    assert(h1.drop_last() =~= h);
    let b1 = spec_erase_bases(h1);
    assert(b1 == (if op.kind is Erase {
        b.push(spec_sector_base(op.addr))
    } else {
        b
    }));
    if op.kind is Erase {
        assert forall|e1: int, e2: int| 0 <= e1 < e2 < b1.len() implies #[trigger] b1[e1]
            != #[trigger] b1[e2] by {
            if e2 == b1.len() - 1 {
                assert(b1[e1] == b[e1]);
                assert(b.contains(b[e1]));
            }
        };
    }
    assert forall|k: int|
        0 <= k < h1.len() && (#[trigger] h1[k]).kind is Write implies spec_erase_bases(
        h1.take(k),
    ).contains(spec_sector_base(h1[k].addr)) by {
        assert(h1.take(k) =~= h.take(k));
        if k == n {
            assert(h.take(k) =~= h);
        }
    };
    assert forall|k: int, k2: int|
        0 <= k && k2 == k + 1 && k2 < h1.len() && (#[trigger] h1[k]).kind is Write implies (
    #[trigger] h1[k2]).kind is Read && h1[k2].addr == h1[k].addr && h1[k2].size == h1[k].size by {
        if k2 == n {
            assert(h1[k] == h[k]);
            assert(h.last() == h[n - 1]);
        }
    };
}

/// Appending a non-reboot operation never adds a reboot.
proof fn lemma_no_reboot_push(h: Seq<FlashOp>, op: FlashOp)
    requires
        spec_no_reboot(h),
        !(op.kind is Reboot),
    ensures
        spec_no_reboot(h.push(op)),
{
    assert forall|k: int| 0 <= k < h.push(op).len() implies !((#[trigger] h.push(op)[k]).kind
        is Reboot) by {
        if k < h.len() {
            assert(h.push(op)[k] == h[k]);
        }
    };
}

/// A flash job in progress.
pub struct FlashProgrammer {
    /// The PICOBOOT session stamping the command frames.
    pub session: PicobootConnection,
    /// The 256-byte pages to program, in address order from the flash base.
    pub pages: Vec<Vec<u8>>,
    /// What to do next.
    pub stage: Stage,
    /// Index of the page being programmed.
    pub next_page: usize,
    /// Base addresses of the sectors erased so far, in erase order.
    pub erased: Vec<u32>,
    /// Every host operation issued so far, in order.
    pub history: Ghost<Seq<FlashOp>>,
}

impl FlashProgrammer {
    /// Upper bound on the session token at the current stage.
    pub open spec fn spec_token_bound(self) -> int {
        match self.stage {
            Stage::ResetIface => 1,
            Stage::Exclusive => 1,
            Stage::ExitXip => 2,
            Stage::PageStart => 3 + 3 * self.next_page,
            Stage::PageWrite => 4 + 3 * self.next_page,
            Stage::PageRead => 5 + 3 * self.next_page,
            Stage::AwaitData => 6 + 3 * self.next_page,
            Stage::Reboot => 3 + 3 * (self.pages@.len() as int),
            Stage::Done => 4 + 3 * (self.pages@.len() as int),
            Stage::Failed => 6 + 3 * (self.pages@.len() as int),
        }
    }

    /// The job's invariant. Besides well-formedness of the parts, it ties
    /// the stage to the history and carries the protocol laws of
    /// `spec_history_wf` over it.
    pub open spec fn wf(self) -> bool {
        let h = self.history@;
        &&& self.session.wf()
        &&& self.pages@.len() <= MAX_PAGE_COUNT
        &&& (forall|p: int| 0 <= p < self.pages@.len() ==> (#[trigger] self.pages@[p])@.len() == 256)
        &&& self.next_page <= self.pages@.len()
        &&& (self.stage is PageStart || self.stage is PageWrite || self.stage is PageRead
            || self.stage is AwaitData ==> self.next_page < self.pages@.len())
        &&& self.session.cmd_token <= self.spec_token_bound()
        &&& self.erased@ == spec_erase_bases(h)
        &&& spec_distinct(self.erased@)
        &&& spec_history_wf(h)
        // a pending write's sector has been erased
        &&& (self.stage is PageWrite ==> self.erased@.contains(
            spec_sector_base(spec_page_addr(self.next_page as int) as u32),
        ))
        &&& (h.len() > 0 && h.last().kind is Write ==> self.stage is PageRead)
        &&& (self.stage is PageRead ==> h.len() > 0 && h.last().kind is Write && h.last().addr
            == spec_page_addr(self.next_page as int) && h.last().size == 256)
        // the reboot closes the job
        &&& (!(self.stage is Done) ==> spec_no_reboot(h))
        &&& (self.stage is ResetIface || self.stage is Exclusive || self.stage is ExitXip
            ==> self.next_page == 0)
        // the final reboot comes only after every page has been verified
        &&& (self.stage is Reboot || self.stage is Done ==> self.next_page == self.pages@.len())
        &&& (self.stage is ResetIface ==> h.len() == 0)
        &&& (self.stage is Exclusive ==> h.len() == 1)
        &&& (self.stage is ExitXip ==> h.len() == 2)
        &&& (self.stage is PageStart || self.stage is PageWrite || self.stage is PageRead
            || self.stage is AwaitData || self.stage is Reboot || self.stage is Done || self.stage
            is Failed ==> h.len() >= 3)
    }

    /// A fresh job over `pages` for a device of family `target_id`: nothing
    /// issued yet, no sector erased, the session's first token 1.
    pub fn new(pages: Vec<Vec<u8>>, target_id: TargetID) -> (r: FlashProgrammer)
        requires
            pages@.len() <= MAX_PAGE_COUNT,
            forall|p: int| 0 <= p < pages@.len() ==> (#[trigger] pages@[p])@.len() == 256,
        ensures
            r.wf(),
            r.stage is ResetIface,
            r.pages == pages,
            r.next_page == 0,
            r.erased@ == Seq::<u32>::empty(),
            r.history@ == Seq::<FlashOp>::empty(),
            r.session.target_id == target_id,
            r.session.cmd_token == 1,
    {
        FlashProgrammer {
            session: PicobootConnection::new(target_id),
            pages,
            stage: Stage::ResetIface,
            next_page: 0,
            erased: Vec::new(),
            history: Ghost(Seq::empty()),
        }
    }

    /// A fresh job, with the page shape checked at run time: `None` where a
    /// page is not 256 bytes or the image would overrun the 32-bit address
    /// space.
    pub fn try_new(pages: Vec<Vec<u8>>, target_id: TargetID) -> (r: Option<FlashProgrammer>)
        ensures
            (pages@.len() <= MAX_PAGE_COUNT && (forall|p: int|
                0 <= p < pages@.len() ==> (#[trigger] pages@[p])@.len() == 256)) ==> r is Some,
            r is Some ==> r.unwrap().wf() && r.unwrap().stage is ResetIface && r.unwrap().pages
                == pages && r.unwrap().session.target_id == target_id,
            r is Some ==> pages@.len() <= MAX_PAGE_COUNT && (forall|p: int|
                0 <= p < pages@.len() ==> (#[trigger] pages@[p])@.len() == 256),
    {
        if pages.len() > MAX_PAGE_COUNT {
            return None;
        }
        if !pages_well_sized(&pages) {
            return None;
        }
        let fp = FlashProgrammer {
            session: PicobootConnection::new(target_id),
            pages,
            stage: Stage::ResetIface,
            next_page: 0,
            erased: Vec::new(),
            history: Ghost(Seq::empty()),
        };
        Some(fp)
    }

    /// The flash address of the page being programmed.
    fn page_addr(&self) -> (r: u32)
        requires
            self.next_page < self.pages@.len(),
            self.pages@.len() <= MAX_PAGE_COUNT,
        ensures
            r == spec_page_addr(self.next_page as int),
    {
        PICO_FLASH_START + 256 * (self.next_page as u32)
    }

    /// Whether `x` is among the erased sector bases.
    fn erased_contains(&self, x: u32) -> (r: bool)
        ensures
            r == self.erased@.contains(x),
    {
        let mut e: usize = 0;
        while e < self.erased.len()
            invariant
                0 <= e <= self.erased@.len(),
                forall|q: int| 0 <= q < e ==> self.erased@[q] != x,
            decreases self.erased@.len() - e,
        {
            if self.erased[e] == x {
                return true;
            }
            e += 1;
        }
        false
    }

    /// Emits the Write command for the current page; its sector has been
    /// erased.
    fn emit_write(&mut self) -> (r: Option<HostAction>)
        requires
            old(self).wf(),
            old(self).stage is PageStart || old(self).stage is PageWrite,
            old(self).erased@.contains(
                spec_sector_base(spec_page_addr(old(self).next_page as int) as u32),
            ),
        ensures
            final(self).wf(),
            final(self).pages == old(self).pages,
            final(self).session.target_id == old(self).session.target_id,
            final(self).stage is PageRead,
            final(self).next_page == old(self).next_page,
            final(self).erased@ == old(self).erased@,
            final(self).session.cmd_token == old(self).session.cmd_token + 1,
            final(self).history@ == old(self).history@.push(
                FlashOp {
                    kind: FlashOpKind::Write,
                    addr: spec_page_addr(old(self).next_page as int) as u32,
                    size: 256,
                },
            ),
            r matches Some(HostAction::Cmd(p)) && p.frame@ == spec_frame_bytes(
                old(self).session.cmd_token,
                0x05,
                8,
                256,
                spec_range_args(spec_page_addr(old(self).next_page as int) as u32, 256),
            ) && (p.data_out matches Some(d) && d@ == old(self).pages@[
                old(self).next_page as int
            ]@) && p.data_in_len is None && !p.ack_out,
    {
        let addr = self.page_addr();
        let data = self.pages[self.next_page].clone();
        assert(data@ == self.pages@[self.next_page as int]@);
        let plan = self.session.flash_write(addr, data);
        self.stage = Stage::PageRead;
        proof {
            let op = FlashOp { kind: FlashOpKind::Write, addr, size: 256 };
            lemma_history_push(self.history@, op);
            lemma_no_reboot_push(self.history@, op);
            self.history@ = self.history@.push(op);
        }
        Some(HostAction::Cmd(plan))
    }

    /// Hands out the next host action, or `None` once the job is finished
    /// or failed. May not be called while read-back data is owed.
    pub fn next_action(&mut self) -> (r: Option<HostAction>)
        requires
            old(self).wf(),
            !(old(self).stage is AwaitData),
        ensures
            final(self).wf(),
            final(self).pages == old(self).pages,
            final(self).session.target_id == old(self).session.target_id,
            (old(self).stage is Done || old(self).stage is Failed) ==> (r is None && *final(self) == *old(self)),
            !(old(self).stage is Done || old(self).stage is Failed) ==> r is Some,
            old(self).stage is ResetIface ==> ((r matches Some(a) && a is ResetInterface) && final(self).stage is Exclusive && final(self).history@ == old(self).history@.push(
                FlashOp { kind: FlashOpKind::ResetIface, addr: 0, size: 0 },
            ) && final(self).session == old(self).session && final(self).erased@ == old(self).erased@ && final(self).next_page == old(self).next_page),
            old(self).stage is Exclusive ==> (final(self).stage is ExitXip && final(self).history@
                == old(self).history@.push(
                FlashOp { kind: FlashOpKind::Exclusive, addr: 0, size: 0 },
            ) && final(self).erased@ == old(self).erased@ && final(self).next_page == old(self).next_page && final(self).session.cmd_token == old(self).session.cmd_token + 1 && (
            r matches Some(HostAction::Cmd(p)) && p.frame@ == spec_frame_bytes(
                old(self).session.cmd_token,
                0x01,
                1,
                0,
                seq![2u8] + spec_zeros(15),
            ) && p.data_out is None && p.data_in_len is None && !p.ack_out)),
            old(self).stage is ExitXip ==> ((if old(self).pages@.len() == 0 {
                final(self).stage is Reboot
            } else {
                final(self).stage is PageStart
            }) && final(self).history@ == old(self).history@.push(
                FlashOp { kind: FlashOpKind::ExitXip, addr: 0, size: 0 },
            ) && final(self).erased@ == old(self).erased@ && final(self).next_page == old(self).next_page && final(self).session.cmd_token == old(self).session.cmd_token + 1 && (
            r matches Some(HostAction::Cmd(p)) && p.frame@ == spec_frame_bytes(
                old(self).session.cmd_token,
                0x06,
                0,
                0,
                spec_zeros(16),
            ) && p.data_out is None && p.data_in_len is None && !p.ack_out)),
            (old(self).stage is PageStart && !old(self).erased@.contains(
                spec_sector_base(spec_page_addr(old(self).next_page as int) as u32),
            )) ==> (final(self).stage is PageWrite && final(self).next_page == old(self).next_page
                && final(self).erased@ == old(self).erased@.push(
                spec_sector_base(spec_page_addr(old(self).next_page as int) as u32),
            ) && final(self).history@ == old(self).history@.push(
                FlashOp {
                    kind: FlashOpKind::Erase,
                    addr: spec_page_addr(old(self).next_page as int) as u32,
                    size: 4096,
                },
            ) && final(self).session.cmd_token == old(self).session.cmd_token + 1 && (r matches
                Some(HostAction::Cmd(p)) && p.frame@ == spec_frame_bytes(
                old(self).session.cmd_token,
                0x03,
                8,
                0,
                spec_range_args(spec_page_addr(old(self).next_page as int) as u32, 4096),
            ) && p.data_out is None && p.data_in_len is None && !p.ack_out)),
            ((old(self).stage is PageStart && old(self).erased@.contains(
                spec_sector_base(spec_page_addr(old(self).next_page as int) as u32),
            )) || old(self).stage is PageWrite) ==> (final(self).stage is PageRead && final(self).next_page == old(self).next_page && final(self).erased@ == old(self).erased@ && final(self).history@ == old(self).history@.push(
                FlashOp {
                    kind: FlashOpKind::Write,
                    addr: spec_page_addr(old(self).next_page as int) as u32,
                    size: 256,
                },
            ) && final(self).session.cmd_token == old(self).session.cmd_token + 1 && (r matches
                Some(HostAction::Cmd(p)) && p.frame@ == spec_frame_bytes(
                old(self).session.cmd_token,
                0x05,
                8,
                256,
                spec_range_args(spec_page_addr(old(self).next_page as int) as u32, 256),
            ) && (p.data_out matches Some(d) && d@ == old(self).pages@[
                old(self).next_page as int
            ]@) && p.data_in_len is None && !p.ack_out)),
            old(self).stage is PageRead ==> (final(self).stage is AwaitData && final(self).next_page == old(self).next_page && final(self).erased@ == old(self).erased@ && final(self).history@ == old(self).history@.push(
                FlashOp {
                    kind: FlashOpKind::Read,
                    addr: spec_page_addr(old(self).next_page as int) as u32,
                    size: 256,
                },
            ) && final(self).session.cmd_token == old(self).session.cmd_token + 1 && (r matches
                Some(HostAction::Cmd(p)) && p.frame@ == spec_frame_bytes(
                old(self).session.cmd_token,
                0x84,
                8,
                256,
                spec_range_args(spec_page_addr(old(self).next_page as int) as u32, 256),
            ) && p.data_out is None && p.data_in_len == Some(256usize) && p.ack_out)),
            (old(self).stage is Reboot && old(self).session.target_id is Rp2040) ==> (final(self).stage is Done && final(self).history@ == old(self).history@.push(
                FlashOp { kind: FlashOpKind::Reboot, addr: 0, size: 0 },
            ) && (r matches Some(HostAction::Cmd(p)) && p.frame@ == spec_frame_bytes(
                old(self).session.cmd_token,
                0x02,
                12,
                0,
                spec_reboot_args(0, 0x20042000, 500),
            ) && p.data_out is None && p.data_in_len is None && !p.ack_out)),
            (old(self).stage is Reboot && old(self).session.target_id is Rp2350) ==> (final(self).stage is Done && final(self).history@ == old(self).history@.push(
                FlashOp { kind: FlashOpKind::Reboot, addr: 0, size: 0 },
            ) && (r matches Some(HostAction::Cmd(p)) && p.frame@ == spec_frame_bytes(
                old(self).session.cmd_token,
                0x0A,
                0x10,
                0,
                spec_reboot2_args(0, 500, 0, 0),
            ) && p.data_out is None && p.data_in_len is None && !p.ack_out)),
    {
        match self.stage {
            Stage::ResetIface => {
                self.stage = Stage::Exclusive;
                proof {
                    let op = FlashOp { kind: FlashOpKind::ResetIface, addr: 0, size: 0 };
                    lemma_history_push(self.history@, op);
                    lemma_no_reboot_push(self.history@, op);
                    self.history@ = self.history@.push(op);
                }
                Some(HostAction::ResetInterface)
            },
            Stage::Exclusive => {
                let plan = self.session.access_exclusive_eject();
                self.stage = Stage::ExitXip;
                proof {
                    let op = FlashOp { kind: FlashOpKind::Exclusive, addr: 0, size: 0 };
                    lemma_history_push(self.history@, op);
                    lemma_no_reboot_push(self.history@, op);
                    self.history@ = self.history@.push(op);
                }
                Some(HostAction::Cmd(plan))
            },
            Stage::ExitXip => {
                let plan = self.session.exit_xip();
                self.stage = if self.pages.len() == 0 {
                    Stage::Reboot
                } else {
                    Stage::PageStart
                };
                proof {
                    let op = FlashOp { kind: FlashOpKind::ExitXip, addr: 0, size: 0 };
                    lemma_history_push(self.history@, op);
                    lemma_no_reboot_push(self.history@, op);
                    self.history@ = self.history@.push(op);
                }
                Some(HostAction::Cmd(plan))
            },
            Stage::PageStart => {
                let addr = self.page_addr();
                let base = addr - addr % 4096;
                if !self.erased_contains(base) {
                    assert(base == spec_sector_base(addr));
                    let plan = self.session.flash_erase(addr, PICO_SECTOR_SIZE);
                    let ghost pre_erased = self.erased@;
                    self.erased.push(base);
                    self.stage = Stage::PageWrite;
                    proof {
                        let op = FlashOp { kind: FlashOpKind::Erase, addr, size: 4096 };
                        lemma_history_push(self.history@, op);
                        lemma_no_reboot_push(self.history@, op);
                        self.history@ = self.history@.push(op);
                        assert(self.erased@[self.erased@.len() - 1] == base);
                    }
                    Some(HostAction::Cmd(plan))
                } else {
                    self.emit_write()
                }
            },
            Stage::PageWrite => self.emit_write(),
            Stage::PageRead => {
                let addr = self.page_addr();
                let plan = self.session.flash_read(addr, 256);
                self.stage = Stage::AwaitData;
                proof {
                    let op = FlashOp { kind: FlashOpKind::Read, addr, size: 256 };
                    lemma_history_push(self.history@, op);
                    lemma_no_reboot_push(self.history@, op);
                    self.history@ = self.history@.push(op);
                }
                Some(HostAction::Cmd(plan))
            },
            Stage::AwaitData => None,
            Stage::Reboot => {
                let plan = match self.session.get_device_type() {
                    TargetID::Rp2040 => self.session.reboot(0x0, crate::PICO_STACK_POINTER, 500),
                    TargetID::Rp2350 => self.session.reboot2_normal(500),
                };
                self.stage = Stage::Done;
                proof {
                    let op = FlashOp { kind: FlashOpKind::Reboot, addr: 0, size: 0 };
                    lemma_history_push(self.history@, op);
                    self.history@ = self.history@.push(op);
                }
                Some(HostAction::Cmd(plan))
            },
            Stage::Done => None,
            Stage::Failed => None,
        }
    }

    /// Verifies the read-back bytes of the current page against what was
    /// written: on an exact match the job moves to the next page (or to the
    /// final reboot), on any difference it stops for good.
    pub fn provide_read(&mut self, data: &Vec<u8>) -> (r: Result<(), FlashError>)
        requires
            old(self).wf(),
            old(self).stage is AwaitData,
        ensures
            final(self).wf(),
            final(self).pages == old(self).pages,
            final(self).history@ == old(self).history@,
            final(self).erased@ == old(self).erased@,
            final(self).session == old(self).session,
            r is Ok <==> data@ == old(self).pages@[old(self).next_page as int]@,
            r is Ok ==> final(self).next_page == old(self).next_page + 1 && (if old(self).next_page
                + 1 == old(self).pages@.len() {
                final(self).stage is Reboot
            } else {
                final(self).stage is PageStart
            }),
            r is Err ==> r == Err::<(), FlashError>(FlashError::VerifyFailed) && final(self).stage
                is Failed && final(self).next_page == old(self).next_page,
    {
        let expected = &self.pages[self.next_page];
        if bytes_equal(data, expected) {
            self.next_page = self.next_page + 1;
            self.stage = if self.next_page == self.pages.len() {
                Stage::Reboot
            } else {
                Stage::PageStart
            };
            Ok(())
        } else {
            self.stage = Stage::Failed;
            Err(FlashError::VerifyFailed)
        }
    }
}

/// Byte-for-byte equality of two buffers.
pub fn bytes_equal(a: &Vec<u8>, b: &Vec<u8>) -> (r: bool)
    ensures
        r == (a@ == b@),
{
    if a.len() != b.len() {
        return false;
    }
    let mut i: usize = 0;
    while i < a.len()
        invariant
            a@.len() == b@.len(),
            0 <= i <= a@.len(),
            forall|q: int| 0 <= q < i ==> a@[q] == b@[q],
        decreases a@.len() - i,
    {
        if a[i] != b[i] {
            return false;
        }
        i += 1;
    }
    assert(a@ =~= b@);
    true
}


/// Erase before write: every Write in a job's history is preceded by an
/// Erase whose sector contains the write's address.
pub proof fn lemma_erase_before_write(fp: FlashProgrammer, k: int)
    requires
        fp.wf(),
        0 <= k < fp.history@.len(),
        fp.history@[k].kind is Write,
    ensures
        exists|j: int|
            0 <= j < k && (#[trigger] fp.history@[j]).kind is Erase && spec_sector_base(
                fp.history@[j].addr,
            ) == spec_sector_base(fp.history@[k].addr),
{
    let h = fp.history@;
    let x = spec_sector_base(h[k].addr);
    lemma_erase_bases_contains(h.take(k), x);
    let j = choose|j: int|
        0 <= j < h.take(k).len() && (#[trigger] h.take(k)[j]).kind is Erase && spec_sector_base(
            h.take(k)[j].addr,
        ) == x;
    assert(h.take(k)[j] == h[j]);
    assert(h[j].kind is Erase && spec_sector_base(h[j].addr) == x);
}

/// Erase once: no two erase commands of one job share a sector base.
pub proof fn lemma_erase_once(fp: FlashProgrammer, j: int, k: int)
    requires
        fp.wf(),
        0 <= j < k < fp.history@.len(),
        fp.history@[j].kind is Erase,
        fp.history@[k].kind is Erase,
    ensures
        spec_sector_base(fp.history@[j].addr) != spec_sector_base(fp.history@[k].addr),
{
    lemma_two_erases_distinct(fp.history@, j, k);
}

/// Verify exactness, ordering half: once the job is past the write (any
/// stage but the one that issues its read), every write in the history is a
/// full 256-byte page directly followed by a read of the same address and
/// length. The compare itself is `provide_read`'s contract: it accepts
/// exactly the byte-for-byte equal read-back.
pub proof fn lemma_write_then_read(fp: FlashProgrammer, k: int)
    requires
        fp.wf(),
        0 <= k < fp.history@.len(),
        fp.history@[k].kind is Write,
        !(fp.stage is PageRead),
    ensures
        fp.history@[k].size == 256,
        k + 1 < fp.history@.len(),
        fp.history@[k + 1].kind is Read,
        fp.history@[k + 1].addr == fp.history@[k].addr,
        fp.history@[k + 1].size == 256,
{
    let h = fp.history@;
    if k == h.len() - 1 {
        assert(h.last().kind is Write);
    }
    assert(h[k + 1].kind is Read && h[k + 1].addr == h[k].addr && h[k + 1].size == h[k].size);
}

/// Initialization order: the interface reset, the exclusive-access command
/// and ExitXip open every job, in that order, before any flash operation.
pub proof fn lemma_init_sequence(fp: FlashProgrammer, k: int)
    requires
        fp.wf(),
        0 <= k < fp.history@.len(),
        fp.history@[k].kind is Erase || fp.history@[k].kind is Write || fp.history@[k].kind is Read
            || fp.history@[k].kind is Reboot,
    ensures
        k >= 3,
        fp.history@[0].kind is ResetIface,
        fp.history@[1].kind is Exclusive,
        fp.history@[2].kind is ExitXip,
{
}

/// A failed verification stops the job for good: no reboot is ever issued.
pub proof fn lemma_failed_no_reboot(fp: FlashProgrammer)
    requires
        fp.wf(),
        fp.stage is Failed,
    ensures
        forall|k: int| 0 <= k < fp.history@.len() ==> !((#[trigger] fp.history@[k]).kind
            is Reboot),
{
}

} // verus!
