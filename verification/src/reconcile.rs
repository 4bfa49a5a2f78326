//! The reconciliation decisions of one run.
//!
//! A run walks the configured record names in order and, for each, the two
//! address families (IPv4 before IPv6).  For every pair it compares the
//! discovered address against the first stored value and wants a write
//! exactly on a mismatch.  Failure policy, chosen once and kept throughout:
//! a family whose discovery failed is skipped whole (its records are
//! neither read nor written, the other family is unaffected), and a pair
//! whose read failed is skipped with a warning; only a transport failure
//! during a write aborts the run, which the driver enforces.

use vstd::prelude::*;

use crate::family::Family;

verus! {

/// What a read of one (record, family) rrset produced.
#[derive(Debug)]
pub enum ReadOutcome {
    /// The read failed (non-2xx status or transport error): nothing is
    /// known of the record.
    Missing,
    /// The rrset's current values, possibly empty.
    Values(Vec<String>),
}

impl View for ReadOutcome {
    type V = Option<Seq<Seq<char>>>;

    open spec fn view(&self) -> Option<Seq<Seq<char>>> {
        match self {
            ReadOutcome::Missing => Option::None,
            ReadOutcome::Values(vs) => Option::Some(vs.deep_view()),
        }
    }
}

/// What the reconciler decides for one (record, family) pair.
#[derive(Clone, Copy, PartialEq, Eq, Structural, Debug)]
pub enum Decision {
    /// No address was discovered for the family: the pair is not touched.
    SkipNoAddress,
    /// The read failed: warn and leave the record alone.
    SkipMissing,
    /// The record holds no values: warn and leave it alone — values are
    /// never created, only replaced.
    SkipEmpty,
    /// The first stored value already equals the discovered address.
    NoChange,
    /// The first stored value differs: replace the rrset with the address.
    Update,
}

/// The decision rule: a write is wanted exactly when an address was
/// discovered, the rrset was read, it is non-empty, and its first value
/// differs from the address.  Only the first stored value is ever compared;
/// further values are ignored.
pub open spec fn decide_spec(ip: Option<Seq<char>>, remote: Option<Seq<Seq<char>>>) -> Decision {
    match ip {
        Option::None => Decision::SkipNoAddress,
        Option::Some(a) => match remote {
            Option::None => Decision::SkipMissing,
            Option::Some(vs) => if vs.len() == 0 {
                Decision::SkipEmpty
            } else if vs[0] == a {
                Decision::NoChange
            } else {
                Decision::Update
            },
        },
    }
}

/// Decides one (record, family) pair.
pub fn decide(ip: &Option<String>, outcome: &ReadOutcome) -> (d: Decision)
    ensures
        d == decide_spec(ip.deep_view(), outcome@),
{
    match ip {
        Option::None => Decision::SkipNoAddress,
        Option::Some(a) => match outcome {
            ReadOutcome::Missing => Decision::SkipMissing,
            ReadOutcome::Values(vs) => {
                if vs.len() == 0 {
                    Decision::SkipEmpty
                } else if vs[0] == *a {
                    Decision::NoChange
                } else {
                    Decision::Update
                }
            },
        },
    }
}

/// One unit of work: a record name paired with an address family.
#[derive(Debug)]
pub struct Target {
    pub name: String,
    pub family: Family,
}

impl View for Target {
    type V = (Seq<char>, Family);

    open spec fn view(&self) -> (Seq<char>, Family) {
        (self.name@, self.family)
    }
}

/// The pairs one record name contributes: IPv4 before IPv6, families
/// without a discovered address left out.
pub open spec fn pair_targets(name: Seq<char>, has4: bool, has6: bool) -> Seq<(Seq<char>, Family)> {
    (if has4 {
        seq![(name, Family::V4)]
    } else {
        Seq::<(Seq<char>, Family)>::empty()
    }) + (if has6 {
        seq![(name, Family::V6)]
    } else {
        Seq::<(Seq<char>, Family)>::empty()
    })
}

/// The whole run's worklist: records in configured order, each contributing
/// its families.
pub open spec fn targets_spec(records: Seq<Seq<char>>, has4: bool, has6: bool) -> Seq<(Seq<char>, Family)>
    decreases records.len(),
{
    if records.len() == 0 {
        Seq::<(Seq<char>, Family)>::empty()
    } else {
        pair_targets(records[0], has4, has6) + targets_spec(records.drop_first(), has4, has6)
    }
}

proof fn lemma_targets_snoc(records: Seq<Seq<char>>, name: Seq<char>, has4: bool, has6: bool)
    ensures
        targets_spec(records.push(name), has4, has6) == targets_spec(records, has4, has6)
            + pair_targets(name, has4, has6),
    decreases records.len(),
{
    assert(records.push(name)[0] == if records.len() == 0 {
        name
    } else {
        records[0]
    });
    if records.len() == 0 {
        assert(records.push(name).drop_first() =~= Seq::<Seq<char>>::empty());
        assert(targets_spec(Seq::<Seq<char>>::empty(), has4, has6) == Seq::<(
            Seq<char>,
            Family,
        )>::empty());
        assert(targets_spec(records.push(name), has4, has6) == pair_targets(name, has4, has6)
            + Seq::<(Seq<char>, Family)>::empty());
        assert(targets_spec(records.push(name), has4, has6) =~= targets_spec(records, has4, has6)
            + pair_targets(name, has4, has6));
    } else {
        assert(records.push(name).drop_first() =~= records.drop_first().push(name));
        lemma_targets_snoc(records.drop_first(), name, has4, has6);
        assert(targets_spec(records.push(name), has4, has6) == pair_targets(records[0], has4, has6)
            + (targets_spec(records.drop_first(), has4, has6) + pair_targets(name, has4, has6)));
        assert(targets_spec(records.push(name), has4, has6) =~= targets_spec(records, has4, has6)
            + pair_targets(name, has4, has6));
    }
}

/// How many of the write statuses seen so far were 201 Created.
pub open spec fn count_created_spec(statuses: Seq<u16>) -> nat
    decreases statuses.len(),
{
    if statuses.len() == 0 {
        0
    } else {
        count_created_spec(statuses.drop_last()) + (if statuses.last() == 201u16 {
            1nat
        } else {
            0nat
        })
    }
}

pub proof fn lemma_count_created_le_len(statuses: Seq<u16>)
    ensures
        count_created_spec(statuses) <= statuses.len(),
    decreases statuses.len(),
{
    if statuses.len() > 0 {
        lemma_count_created_le_len(statuses.drop_last());
    }
}

/// Seeing one more write status raises the count by one exactly when the
/// status is 201 Created.
pub proof fn lemma_count_created_push(statuses: Seq<u16>, status: u16)
    ensures
        count_created_spec(statuses.push(status)) == count_created_spec(statuses) + (
        if status == 201u16 {
            1nat
        } else {
            0nat
        }),
{
    assert(statuses.push(status).drop_last() =~= statuses);
    assert(statuses.push(status).last() == status);
}

/// The reconciler: one pass over records × families, driven from outside.
///
/// The driver repeatedly asks for the next pair (`next_target`), reads its
/// rrset, and reports what it found (`on_read`); when the decision is
/// `Update` it performs the write and reports the HTTP status it got back
/// (`on_write_status`).
pub struct Reconciler {
    pub ip4: Option<String>,
    pub ip6: Option<String>,
    pub targets: Vec<Target>,
    pub pos: usize,
    pub awaiting: bool,
    pub changed: usize,
    pub statuses: Ghost<Seq<u16>>,
}

impl Reconciler {
    /// The discovered address for a family.
    pub open spec fn spec_ip(self, f: Family) -> Option<Seq<char>> {
        match f {
            Family::V4 => self.ip4.deep_view(),
            Family::V6 => self.ip6.deep_view(),
        }
    }

    /// The worklist as the spec model sees it.
    pub open spec fn spec_targets(self) -> Seq<(Seq<char>, Family)> {
        self.targets@.map_values(|t: Target| t@)
    }

    /// Well-formedness: established by `new`, preserved by every step.  In
    /// particular the changed-count always equals the number of 201 write
    /// statuses seen so far.
    pub open spec fn wf(self) -> bool {
        &&& self.pos <= self.targets@.len()
        &&& self.changed == count_created_spec(self.statuses@)
        &&& self.statuses@.len() <= self.pos
        &&& self.awaiting ==> self.pos < self.targets@.len()
        &&& self.awaiting ==> self.spec_ip(self.targets@[self.pos as int].family) is Some
    }

    /// Starts a run over the configured records and the two discovery
    /// results.  A family whose discovery failed contributes no pairs at
    /// all: its records are neither read nor written.
    pub fn new(records: &Vec<String>, ip4: Option<String>, ip6: Option<String>) -> (r: Reconciler)
        ensures
            r.wf(),
            r.pos == 0,
            !r.awaiting,
            r.changed == 0,
            r.statuses@ == Seq::<u16>::empty(),
            r.ip4 == ip4,
            r.ip6 == ip6,
            r.spec_targets() == targets_spec(records.deep_view(), ip4 is Some, ip6 is Some),
    {
        let has4 = ip4.is_some();
        let has6 = ip6.is_some();
        let mut targets: Vec<Target> = Vec::new();
        let mut i: usize = 0;
        while i < records.len()
            invariant
                i <= records@.len(),
                targets@.map_values(|t: Target| t@) == targets_spec(
                    records.deep_view().take(i as int),
                    has4,
                    has6,
                ),
            decreases records@.len() - i,
        {
            let ghost prefix = records.deep_view().take(i as int);
            let ghost before = targets@;
            if has4 {
                targets.push(Target { name: records[i].clone(), family: Family::V4 });
            }
            if has6 {
                targets.push(Target { name: records[i].clone(), family: Family::V6 });
            }
            proof {
                lemma_targets_snoc(prefix, records.deep_view()[i as int], has4, has6);
                assert(records.deep_view().take(i + 1) =~= prefix.push(
                    records.deep_view()[i as int],
                ));
                assert(targets@.map_values(|t: Target| t@) =~= before.map_values(|t: Target| t@)
                    + pair_targets(records.deep_view()[i as int], has4, has6));
            }
            i = i + 1;
        }
        proof {
            assert(records.deep_view().take(records@.len() as int) =~= records.deep_view());
        }
        Reconciler {
            ip4,
            ip6,
            targets,
            pos: 0,
            awaiting: false,
            changed: 0,
            statuses: Ghost(Seq::<u16>::empty()),
        }
    }

    /// The next (record, family) pair to read, `None` when the run is done.
    pub fn next_target(&self) -> (t: Option<Target>)
        requires
            self.wf(),
            !self.awaiting,
        ensures
            (match t {
                Option::None => self.pos == self.targets@.len(),
                Option::Some(tg) => self.pos < self.targets@.len() && tg@ == self.targets@[
                    self.pos as int
                ]@,
            }),
    {
        if self.pos < self.targets.len() {
            let tg = &self.targets[self.pos];
            Option::Some(Target { name: tg.name.clone(), family: tg.family })
        } else {
            Option::None
        }
    }

    /// Reports what reading the current pair's rrset produced, and returns
    /// the decision for the pair.  On `Update` the machine waits for the
    /// write's status; on every other decision it moves on, leaving count
    /// and statuses untouched.
    pub fn on_read(&mut self, outcome: &ReadOutcome) -> (d: Decision)
        requires
            old(self).wf(),
            !old(self).awaiting,
            old(self).pos < old(self).targets@.len(),
        ensures
            final(self).wf(),
            d == decide_spec(
                old(self).spec_ip(old(self).targets@[old(self).pos as int].family),
                outcome@,
            ),
            final(self).ip4 == old(self).ip4,
            final(self).ip6 == old(self).ip6,
            final(self).targets == old(self).targets,
            final(self).changed == old(self).changed,
            final(self).statuses == old(self).statuses,
            d == Decision::Update ==> final(self).awaiting && final(self).pos == old(self).pos,
            d != Decision::Update ==> !final(self).awaiting && final(self).pos == old(self).pos
                + 1,
    {
        let fam = self.targets[self.pos].family;
        let d = match fam {
            Family::V4 => decide(&self.ip4, outcome),
            Family::V6 => decide(&self.ip6, outcome),
        };
        match d {
            Decision::Update => {
                self.awaiting = true;
            },
            _ => {
                let n = self.targets.len();
                assert(self.pos < n);
                self.pos = self.pos + 1;
            },
        }
        d
    }

    /// The value the pending write must carry: the discovered address of
    /// the current pair's family.
    pub fn current_write(&self) -> (ip: String)
        requires
            self.wf(),
            self.awaiting,
        ensures
            Option::Some(ip@) == self.spec_ip(self.targets@[self.pos as int].family),
    {
        let fam = self.targets[self.pos].family;
        let source = match fam {
            Family::V4 => &self.ip4,
            Family::V6 => &self.ip6,
        };
        match source {
            Option::Some(s) => s.clone(),
            // wf rules this branch out: a pending write always has an address
            Option::None => unreached(),
        }
    }

    /// Reports the HTTP status of the write just performed.  Only 201
    /// Created counts as a change; any other status — a 200 among them —
    /// leaves the count as it was.  The machine then moves on.
    pub fn on_write_status(&mut self, status: u16)
        requires
            old(self).wf(),
            old(self).awaiting,
        ensures
            final(self).wf(),
            !final(self).awaiting,
            final(self).pos == old(self).pos + 1,
            final(self).statuses@ == old(self).statuses@.push(status),
            status == 201 ==> final(self).changed == old(self).changed + 1,
            status != 201 ==> final(self).changed == old(self).changed,
            final(self).ip4 == old(self).ip4,
            final(self).ip6 == old(self).ip6,
            final(self).targets == old(self).targets,
    {
        let n = self.targets.len();
        proof {
            lemma_count_created_le_len(self.statuses@);
            lemma_count_created_push(self.statuses@, status);
            assert(self.changed <= self.statuses@.len());
            assert(self.pos < n);
        }
        if status == 201 {
            self.changed = self.changed + 1;
        }
        self.pos = self.pos + 1;
        self.awaiting = false;
        self.statuses = Ghost(self.statuses@.push(status));
    }

    /// The number of records changed so far: the run's report.
    pub fn changed_count(&self) -> (n: usize)
        ensures
            n == self.changed,
    {
        self.changed
    }
}

} // verus!
