//! One reconciliation tick as a state machine: every group of the
//! configuration is taken in order through the resolving of its target
//! address, the lookup of the provider's records, the choice of the record
//! to update and the update itself. The machine decides; the outside work
//! that it asks for is done by whoever drives it, and comes back as events.

use crate::cloudflare::{
    list_request, public_ip_request, update_request, Cloudflare, Record, RecordView, Request,
    RequestView, UpdateRecord, UpdateRecordView,
};
use crate::ip::{AddressFamily, IpAddress};
use crate::reet::{
    group_view, groups_view, ConfigErrorKind, ConfigErrorView, DesiredRecordView,
    Group, GroupView, DEFAULT_TTL,
};
use vstd::prelude::*;
use vstd::string::*;

verus! {

/// Why a group was left without an update.
#[derive(Clone, Copy, Debug, PartialEq, Eq, Structural)]
pub enum SkipReason {
    /// The configuration of the group is at fault.
    Config(ConfigErrorKind),
    /// The group names no address and the public address could not be had
    /// when it was asked for on the group's behalf.
    IpResolutionFailed,
    /// The provider's records could not be listed.
    LookupFailed,
    /// The provider holds no record of the group's name and type.
    RecordNotFound,
    /// None of the provider's records is of the target address's family.
    NoFamilyMatch,
    /// The provider did not take the update.
    UpdateFailed,
}

/// How the reconciliation of one group ended.
#[derive(Clone, Copy, Debug, PartialEq, Eq, Structural)]
pub enum Outcome {
    Updated,
    Skipped(SkipReason),
}

/// Where the group in hand stands.
#[derive(Debug)]
pub enum Stage {
    /// Its target address is not known yet.
    Extracted,
    /// Its target address is known; the provider's records are not.
    IpResolved(IpAddress),
    /// The provider's record to update is chosen: the target address and
    /// the id of the record.
    Matched(IpAddress, String),
}

/// Where the group in hand stands.
pub enum StageView {
    Extracted,
    IpResolved(IpAddress),
    Matched(IpAddress, Seq<char>),
}

impl View for Stage {
    type V = StageView;

    open spec fn view(&self) -> StageView {
        match self {
            Stage::Extracted => StageView::Extracted,
            Stage::IpResolved(ip) => StageView::IpResolved(*ip),
            Stage::Matched(ip, id) => StageView::Matched(*ip, id@),
        }
    }
}

/// What came back from the outside work that the machine asked for.
#[derive(Debug)]
pub enum Event {
    /// The public address, or `None` where it could not be had.
    PublicIp(Option<IpAddress>),
    /// The provider's records of the name and type asked for, or `None`
    /// where they could not be listed.
    Records(Option<Vec<Record>>),
    /// Whether the provider took the update.
    Updated(bool),
}

/// What came back from the outside work that the machine asked for.
pub enum EventView {
    PublicIp(Option<IpAddress>),
    Records(Option<Seq<RecordView>>),
    Updated(bool),
}

impl View for Event {
    type V = EventView;

    open spec fn view(&self) -> EventView {
        match self {
            Event::PublicIp(ip) => EventView::PublicIp(*ip),
            Event::Records(records) => EventView::Records(records.deep_view()),
            Event::Updated(ok) => EventView::Updated(*ok),
        }
    }
}

/// The outside work that the machine waits for.
#[derive(Debug, PartialEq, Eq)]
pub enum Action {
    /// Ask the echo service for the public address.
    ResolvePublicIp(Request),
    /// List the provider's records of a name and type.
    FindRecords(Request),
    /// Send an update to the provider.
    UpdateRecord(Request),
    /// Nothing: every group has its outcome.
    Finished,
}

/// The outside work that the machine waits for.
pub enum ActionView {
    ResolvePublicIp(RequestView),
    FindRecords(RequestView),
    UpdateRecord(RequestView),
    Finished,
}

impl View for Action {
    type V = ActionView;

    open spec fn view(&self) -> ActionView {
        match self {
            Action::ResolvePublicIp(r) => ActionView::ResolvePublicIp(r@),
            Action::FindRecords(r) => ActionView::FindRecords(r@),
            Action::UpdateRecord(r) => ActionView::UpdateRecord(r@),
            Action::Finished => ActionView::Finished,
        }
    }
}

/// The target address of `record`, as far as it is known: the address that
/// the record names, or else the public address where the tick has it.
pub open spec fn target(record: DesiredRecordView, public_ip: Option<IpAddress>) -> Option<
    IpAddress,
> {
    match record.explicit_ip {
        Some(ip) => Some(ip),
        None => public_ip,
    }
}

/// `candidates[k]` is of `family`, and no candidate before it is.
pub open spec fn is_first_of_family(
    candidates: Seq<RecordView>,
    family: AddressFamily,
    k: int,
) -> bool {
    &&& 0 <= k < candidates.len()
    &&& candidates[k].content.spec_family() == family
    &&& forall|j: int| 0 <= j < k ==> (#[trigger] candidates[j]).content.spec_family() != family
}

/// The place of the first candidate of `family`, in the order in which the
/// provider gave them.
pub open spec fn first_of_family(candidates: Seq<RecordView>, family: AddressFamily) -> Option<
    int,
> {
    if exists|k: int| is_first_of_family(candidates, family, k) {
        Some(choose|k: int| is_first_of_family(candidates, family, k))
    } else {
        None
    }
}

/// The update that brings the provider's record `id` to what `record` asks
/// for, with `ip` as its address. Where the record names no time to live the
/// update carries `DEFAULT_TTL`; its proxy flag is the record's, set or not.
pub open spec fn payload(record: DesiredRecordView, id: Seq<char>, ip: IpAddress) -> UpdateRecordView {
    UpdateRecordView {
        id,
        record_type: record.record_type,
        name: record.dns_name,
        content: ip,
        ttl: match record.ttl {
            Some(ttl) => ttl,
            None => DEFAULT_TTL,
        },
        proxied: record.proxied,
    }
}

/// The state of a tick.
pub struct TickView {
    /// The groups of the configuration, in order.
    pub groups: Seq<GroupView>,
    /// How the groups before the one in hand ended, in order.
    pub outcomes: Seq<Outcome>,
    /// The public address, once the tick has it.
    pub public_ip: Option<IpAddress>,
    /// Where the group in hand stands.
    pub stage: StageView,
}

impl TickView {
    /// Every group has its outcome.
    pub open spec fn finished(self) -> bool {
        self.outcomes.len() >= self.groups.len()
    }

    /// The record of the group in hand.
    pub open spec fn record(self) -> DesiredRecordView {
        self.groups[self.outcomes.len() as int]->Ok_0
    }

    /// The state before anything is done.
    pub open spec fn initial(groups: Seq<GroupView>) -> TickView {
        TickView {
            groups,
            outcomes: Seq::empty(),
            public_ip: None,
            stage: StageView::Extracted,
        }
    }

    /// The state in which the tick starts on `groups`.
    pub open spec fn start(groups: Seq<GroupView>) -> TickView {
        Self::initial(groups).settle()
    }

    /// Goes on, from a group whose target address is not looked at yet,
    /// until outside work is needed or every group has its outcome. A group
    /// whose configuration is at fault is skipped. A group whose target is
    /// known waits for the provider's records, and one whose target is the
    /// public address waits for that where the tick does not have it.
    pub open spec fn settle(self) -> TickView
        decreases self.groups.len() - self.outcomes.len(),
    {
        if self.finished() {
            self
        } else {
            match self.groups[self.outcomes.len() as int] {
                Err(e) => self.skip(SkipReason::Config(e.kind)).settle(),
                Ok(record) => match target(record, self.public_ip) {
                    Some(ip) => TickView { stage: StageView::IpResolved(ip), ..self },
                    None => self,
                },
            }
        }
    }

    /// The group in hand gets `outcome`, and the next one comes to hand.
    pub open spec fn next(self, outcome: Outcome) -> TickView {
        TickView { outcomes: self.outcomes.push(outcome), stage: StageView::Extracted, ..self }
    }

    /// The group in hand is skipped.
    pub open spec fn skip(self, reason: SkipReason) -> TickView {
        self.next(Outcome::Skipped(reason))
    }

    /// The group in hand gets `outcome`, and the tick goes on with the
    /// groups after it.
    pub open spec fn close(self, outcome: Outcome) -> TickView {
        self.next(outcome).settle()
    }

    /// The state after `event`. An event that does not answer what the
    /// state waits for changes nothing.
    pub open spec fn step(self, event: EventView) -> TickView {
        if self.finished() {
            self
        } else {
            match (self.stage, event) {
                (StageView::Extracted, EventView::PublicIp(Some(ip))) => TickView {
                    public_ip: Some(ip),
                    stage: StageView::IpResolved(ip),
                    ..self
                },
                (StageView::Extracted, EventView::PublicIp(None)) => self.close(
                    Outcome::Skipped(SkipReason::IpResolutionFailed),
                ),
                (StageView::IpResolved(_), EventView::Records(None)) => self.close(
                    Outcome::Skipped(SkipReason::LookupFailed),
                ),
                (StageView::IpResolved(ip), EventView::Records(Some(candidates))) => {
                    if candidates.len() == 0 {
                        self.close(Outcome::Skipped(SkipReason::RecordNotFound))
                    } else {
                        match first_of_family(candidates, ip.spec_family()) {
                            Some(k) => TickView {
                                stage: StageView::Matched(ip, candidates[k].id),
                                ..self
                            },
                            None => self.close(Outcome::Skipped(SkipReason::NoFamilyMatch)),
                        }
                    }
                },
                (StageView::Matched(_, _), EventView::Updated(true)) => self.close(
                    Outcome::Updated,
                ),
                (StageView::Matched(_, _), EventView::Updated(false)) => self.close(
                    Outcome::Skipped(SkipReason::UpdateFailed),
                ),
                _ => self,
            }
        }
    }

    /// The outside work that the state waits for, in the zone `zone_id`.
    pub open spec fn pending(self, zone_id: Seq<char>) -> ActionView {
        if self.finished() {
            ActionView::Finished
        } else {
            match self.stage {
                StageView::Extracted => ActionView::ResolvePublicIp(public_ip_request()),
                StageView::IpResolved(_) => ActionView::FindRecords(
                    list_request(zone_id, self.record().dns_name, self.record().record_type),
                ),
                StageView::Matched(ip, id) => ActionView::UpdateRecord(
                    update_request(zone_id, payload(self.record(), id, ip)),
                ),
            }
        }
    }

    /// The tick over the same configuration without its group `n`, at the
    /// point where this tick takes up the group after `n`: the groups before
    /// `n` have the outcomes they have here, and the public address is known
    /// as it is here.
    pub open spec fn without(self, n: int) -> TickView {
        TickView {
            groups: self.groups.remove(n),
            outcomes: self.outcomes.take(n),
            public_ip: self.public_ip,
            stage: StageView::Extracted,
        }.settle()
    }

    /// This tick, past its group `n`, stands where `other` stands, a tick
    /// over the same configuration without that group: at the same stage of
    /// the same group, with the same public address, and with the same
    /// outcome for every other group.
    pub open spec fn in_step_without(self, other: TickView, n: int) -> bool {
        &&& 0 <= n < self.outcomes.len() <= self.groups.len()
        &&& other.groups == self.groups.remove(n)
        &&& other.outcomes == self.outcomes.remove(n)
        &&& other.public_ip == self.public_ip
        &&& other.stage == self.stage
    }

    /// `event` answers what the state waits for.
    pub open spec fn answered_by(self, event: EventView) -> bool {
        !self.finished() && match (self.stage, event) {
            (StageView::Extracted, EventView::PublicIp(_)) => true,
            (StageView::IpResolved(_), EventView::Records(_)) => true,
            (StageView::Matched(_, _), EventView::Updated(_)) => true,
            _ => false,
        }
    }

    /// How far the tick is from its end, at most: three pieces of outside
    /// work for each group without an outcome, less what is done for the
    /// group in hand.
    pub open spec fn distance(self) -> int {
        3 * (self.groups.len() - self.outcomes.len()) - match self.stage {
            StageView::Extracted => 0int,
            StageView::IpResolved(_) => 1int,
            StageView::Matched(_, _) => 2int,
        }
    }

    /// The states that a tick goes through: there are no more outcomes than
    /// groups; the group in hand, if any, asks for a record; its stage says
    /// what is known of its target, and the address that a stage holds is
    /// that target.
    pub open spec fn wf(self) -> bool {
        &&& self.outcomes.len() <= self.groups.len()
        &&& if self.finished() {
            self.stage is Extracted
        } else {
            &&& self.groups[self.outcomes.len() as int] is Ok
            &&& match self.stage {
                StageView::Extracted => target(self.record(), self.public_ip) is None,
                StageView::IpResolved(ip) => target(self.record(), self.public_ip) == Some(ip),
                StageView::Matched(ip, _) => target(self.record(), self.public_ip) == Some(ip),
            }
        }
    }
}

/// A tick in progress.
#[derive(Debug)]
pub struct Tick {
    groups: Vec<Group>,
    outcomes: Vec<Outcome>,
    public_ip: Option<IpAddress>,
    stage: Stage,
}

impl View for Tick {
    type V = TickView;

    closed spec fn view(&self) -> TickView {
        TickView {
            groups: groups_view(self.groups@),
            outcomes: self.outcomes@,
            public_ip: self.public_ip,
            stage: self.stage@,
        }
    }
}

impl Tick {
    #[verifier::type_invariant]
    spec fn well_formed(self) -> bool {
        self@.wf()
    }

    /// Goes on from the first group without an outcome until outside work
    /// is needed or no group is left.
    fn settle(groups: Vec<Group>, done: Vec<Outcome>, public_ip: Option<IpAddress>) -> (t: Tick)
        requires
            done.len() <= groups.len(),
        ensures
            t@ == (TickView {
                groups: groups_view(groups@),
                outcomes: done@,
                public_ip,
                stage: StageView::Extracted,
            }).settle(),
            t@.wf(),
    {
        let ghost all = groups_view(groups@);
        let ghost first = TickView {
            groups: all,
            outcomes: done@,
            public_ip,
            stage: StageView::Extracted,
        };
        let mut outcomes = done;
        while outcomes.len() < groups.len()
            invariant
                outcomes.len() <= groups.len(),
                all == groups_view(groups@),
                first == (TickView {
                    groups: all,
                    outcomes: done@,
                    public_ip,
                    stage: StageView::Extracted,
                }),
                first.settle() == (TickView {
                    groups: all,
                    outcomes: outcomes@,
                    public_ip,
                    stage: StageView::Extracted,
                }).settle(),
            decreases groups.len() - outcomes.len(),
        {
            let n = outcomes.len();
            let ghost here = TickView {
                groups: all,
                outcomes: outcomes@,
                public_ip,
                stage: StageView::Extracted,
            };
            assert(all[n as int] == group_view(groups@[n as int]));
            assert(!here.finished());
            match &groups[n] {
                Err(e) => {
                    assert(here.settle() == here.skip(SkipReason::Config(e@.kind)).settle());
                    outcomes.push(Outcome::Skipped(SkipReason::Config(e.kind)));
                },
                Ok(record) => {
                    let known = match record.explicit_ip {
                        Some(ip) => Some(ip),
                        None => public_ip,
                    };
                    assert(known == target(record@, public_ip));
                    assert(all[n as int] == Ok::<DesiredRecordView, ConfigErrorView>(record@));
                    match known {
                        Some(ip) => {
                            assert(here.settle() == (TickView {
                                stage: StageView::IpResolved(ip),
                                ..here
                            }));
                            return Tick { groups, outcomes, public_ip, stage: Stage::IpResolved(ip) };
                        },
                        None => {
                            assert(here.settle() == here);
                            return Tick { groups, outcomes, public_ip, stage: Stage::Extracted };
                        },
                    }
                },
            }
        }
        Tick { groups, outcomes, public_ip, stage: Stage::Extracted }
    }

    /// The tick that starts on `groups`.
    pub fn start(groups: Vec<Group>) -> (t: Tick)
        ensures
            t@ == TickView::start(groups_view(groups@)),
            t@.wf(),
    {
        Tick::settle(groups, Vec::new(), None)
    }

    /// Whether every group has its outcome.
    pub fn is_finished(&self) -> (b: bool)
        ensures
            b == self@.finished(),
    {
        self.outcomes.len() >= self.groups.len()
    }

    /// The groups that the tick runs over, in order.
    pub fn groups(&self) -> (r: &Vec<Group>)
        ensures
            groups_view(r@) == self@.groups,
    {
        &self.groups
    }

    /// How the groups before the one in hand ended, in order.
    pub fn outcomes(&self) -> (r: Vec<Outcome>)
        ensures
            r@ == self@.outcomes,
    {
        self.outcomes.clone()
    }

    /// The outside work that the tick waits for.
    pub fn pending(&self, cloudflare: &Cloudflare) -> (a: Action)
        ensures
            a@ == self@.pending(cloudflare@.zone_id),
    {
        proof {
            use_type_invariant(self);
        }
        let n = self.outcomes.len();
        if n >= self.groups.len() {
            return Action::Finished;
        }
        assert(groups_view(self.groups@)[n as int] == group_view(self.groups@[n as int]));
        match &self.groups[n] {
            Err(_) => Action::Finished,
            Ok(record) => match &self.stage {
                Stage::Extracted => Action::ResolvePublicIp(cloudflare.public_ip()),
                Stage::IpResolved(_) => Action::FindRecords(
                    cloudflare.get_record(record.dns_name.as_str(), &record.record_type),
                ),
                Stage::Matched(ip, id) => {
                    let ttl = match record.ttl {
                        Some(ttl) => ttl,
                        None => DEFAULT_TTL,
                    };
                    let update = UpdateRecord::new(
                        id.as_str(),
                        record.record_type,
                        record.dns_name.as_str(),
                        *ip,
                        ttl,
                        record.proxied,
                    );
                    Action::UpdateRecord(cloudflare.update_record(&update))
                },
            },
        }
    }

    /// The tick after `event`.
    pub fn step(self, event: Event) -> (t: Tick)
        ensures
            t@ == self@.step(event@),
            t@.wf(),
    {
        proof {
            use_type_invariant(&self);
        }
        let ghost before = self@;
        let Tick { groups, outcomes, public_ip, stage } = self;
        let n = outcomes.len();
        if n >= groups.len() {
            return Tick { groups, outcomes, public_ip, stage };
        }
        assert(groups_view(groups@)[n as int] == group_view(groups@[n as int]));
        match (stage, event) {
            (Stage::Extracted, Event::PublicIp(Some(ip))) => Tick {
                groups,
                outcomes,
                public_ip: Some(ip),
                stage: Stage::IpResolved(ip),
            },
            (Stage::Extracted, Event::PublicIp(None)) => Tick::close(
                groups,
                outcomes,
                public_ip,
                Outcome::Skipped(SkipReason::IpResolutionFailed),
            ),
            (Stage::IpResolved(_), Event::Records(None)) => Tick::close(
                groups,
                outcomes,
                public_ip,
                Outcome::Skipped(SkipReason::LookupFailed),
            ),
            (Stage::IpResolved(ip), Event::Records(Some(candidates))) => {
                if candidates.len() == 0 {
                    Tick::close(
                        groups,
                        outcomes,
                        public_ip,
                        Outcome::Skipped(SkipReason::RecordNotFound),
                    )
                } else {
                    match select(&candidates, &ip) {
                        Some(k) => {
                            let id = candidates[k].id.clone();
                            assert(candidates.deep_view()[k as int] == candidates@[k as int]@);
                            Tick { groups, outcomes, public_ip, stage: Stage::Matched(ip, id) }
                        },
                        None => Tick::close(
                            groups,
                            outcomes,
                            public_ip,
                            Outcome::Skipped(SkipReason::NoFamilyMatch),
                        ),
                    }
                }
            },
            (Stage::Matched(_, _), Event::Updated(true)) => Tick::close(
                groups,
                outcomes,
                public_ip,
                Outcome::Updated,
            ),
            (Stage::Matched(_, _), Event::Updated(false)) => Tick::close(
                groups,
                outcomes,
                public_ip,
                Outcome::Skipped(SkipReason::UpdateFailed),
            ),
            (stage, _) => Tick { groups, outcomes, public_ip, stage },
        }
    }

    /// The group in hand gets `outcome`, and the tick goes on with the
    /// groups after it.
    fn close(
        groups: Vec<Group>,
        outcomes: Vec<Outcome>,
        public_ip: Option<IpAddress>,
        outcome: Outcome,
    ) -> (t: Tick)
        requires
            outcomes.len() < groups.len(),
        ensures
            t@ == (TickView {
                groups: groups_view(groups@),
                outcomes: outcomes@.push(outcome),
                public_ip,
                stage: StageView::Extracted,
            }).settle(),
            t@.wf(),
    {
        let mut outcomes = outcomes;
        outcomes.push(outcome);
        Tick::settle(groups, outcomes, public_ip)
    }
}

/// The place of the first candidate whose address is of the family of
/// `target`, in the order in which the provider gave them.
pub fn select(candidates: &Vec<Record>, target: &IpAddress) -> (r: Option<usize>)
    ensures
        match r {
            Some(k) => is_first_of_family(candidates.deep_view(), target.spec_family(), k as int),
            None => forall|j: int|
                0 <= j < candidates.len() ==> (#[trigger] candidates.deep_view()[j]).content.spec_family()
                    != target.spec_family(),
        },
        first_of_family(candidates.deep_view(), target.spec_family()) == match r {
            Some(k) => Some(k as int),
            None => None,
        },
{
    let ghost all = candidates.deep_view();
    let ghost family = target.spec_family();
    let mut k: usize = 0;
    while k < candidates.len()
        invariant
            k <= candidates.len(),
            all == candidates.deep_view(),
            family == target.spec_family(),
            forall|j: int| 0 <= j < k ==> (#[trigger] all[j]).content.spec_family() != family,
        decreases candidates.len() - k,
    {
        if candidates[k].content.same_family(target) {
            assert(all[k as int] == candidates@[k as int]@);
            assert(is_first_of_family(all, family, k as int));
            proof {
                lemma_first_of_family_is_one(all, family, k as int);
            }
            return Some(k);
        }
        assert(all[k as int] == candidates@[k as int]@);
        k += 1;
    }
    assert forall|j: int| !is_first_of_family(all, family, j) by {}
    None
}

/// At most one place is that of the first candidate of a family.
pub proof fn lemma_first_of_family_is_one(
    candidates: Seq<RecordView>,
    family: AddressFamily,
    k: int,
)
    requires
        is_first_of_family(candidates, family, k),
    ensures
        first_of_family(candidates, family) == Some(k),
{
    let found = choose|j: int| is_first_of_family(candidates, family, j);
    assert(is_first_of_family(candidates, family, found));
    if found < k {
        assert(candidates[found].content.spec_family() != family);
    } else if k < found {
        assert(candidates[k].content.spec_family() != family);
    }
}

/// Going on changes neither the groups nor what is known of the public
/// address, keeps the outcomes that there are, and only adds skips of groups
/// whose configuration is at fault. It ends in a state of the tick in which
/// no record is chosen yet.
pub proof fn lemma_settle(t: TickView)
    requires
        t.outcomes.len() <= t.groups.len(),
        t.stage is Extracted,
    ensures
        t.settle().wf(),
        t.settle().groups == t.groups,
        t.settle().public_ip == t.public_ip,
        t.outcomes.is_prefix_of(t.settle().outcomes),
        !(t.settle().stage is Matched),
        t.settle().distance() <= t.distance(),
        forall|i: int|
            t.outcomes.len() <= i < t.settle().outcomes.len() ==> t.groups[i] is Err
                && #[trigger] t.settle().outcomes[i] == Outcome::Skipped(
                SkipReason::Config(t.groups[i]->Err_0.kind),
            ),
    decreases t.groups.len() - t.outcomes.len(),
{
    if !t.finished() {
        let skipped = match t.groups[t.outcomes.len() as int] {
            Err(e) => Some(t.skip(SkipReason::Config(e.kind))),
            Ok(_) => None,
        };
        if let Some(next) = skipped {
            lemma_settle(next);
            assert(t.settle() == next.settle());
            assert(next.outcomes.drop_last() == t.outcomes);
            assert(t.outcomes.is_prefix_of(t.settle().outcomes)) by {
                assert(t.outcomes =~= t.settle().outcomes.subrange(0, t.outcomes.len() as int));
            }
            assert forall|i: int|
                t.outcomes.len() <= i < t.settle().outcomes.len() implies t.groups[i] is Err
                && #[trigger] t.settle().outcomes[i] == Outcome::Skipped(
                SkipReason::Config(t.groups[i]->Err_0.kind),
            ) by {
                if i == t.outcomes.len() {
                    assert(t.settle().outcomes[i] == next.outcomes[i]);
                }
            }
        }
    }
}

/// A tick starts in one of the states that a tick goes through, for every
/// list of groups.
pub proof fn lemma_start_wf(groups: Seq<GroupView>)
    ensures
        TickView::start(groups).wf(),
        TickView::start(groups).groups == groups,
{
    lemma_settle(TickView::initial(groups));
}

/// Whatever an event reports, the tick stays in one of the states that a
/// tick goes through.
pub proof fn lemma_step_wf(t: TickView, event: EventView)
    requires
        t.wf(),
    ensures
        t.step(event).wf(),
{
    lemma_step_goes_on(t, event);
}

/// A failure with one group does not keep the groups after it from being
/// taken up. Whatever an event reports, success or failure: the groups stay
/// as they were, and so do the outcomes there are; an event that answers what
/// the tick waits for brings the tick nearer its end, and any other changes
/// nothing; and the tick waits for nothing only when every group has its
/// outcome.
pub proof fn lemma_step_goes_on(t: TickView, event: EventView)
    requires
        t.wf(),
    ensures
        t.step(event).wf(),
        t.step(event).groups == t.groups,
        t.outcomes.is_prefix_of(t.step(event).outcomes),
        t.answered_by(event) ==> t.step(event).distance() < t.distance(),
        !t.answered_by(event) ==> t.step(event) == t,
        0 <= t.distance(),
        forall|zone_id: Seq<char>| #[trigger]
            t.pending(zone_id) is Finished <==> t.outcomes.len() == t.groups.len(),
{
    if !t.finished() {
        lemma_settle(t.next(Outcome::Updated));
        lemma_settle(t.next(Outcome::Skipped(SkipReason::LookupFailed)));
        lemma_settle(t.next(Outcome::Skipped(SkipReason::RecordNotFound)));
        lemma_settle(t.next(Outcome::Skipped(SkipReason::NoFamilyMatch)));
        lemma_settle(t.next(Outcome::Skipped(SkipReason::UpdateFailed)));
        lemma_settle(t.next(Outcome::Skipped(SkipReason::IpResolutionFailed)));
        assert forall|o: Outcome| t.outcomes.is_prefix_of(#[trigger] t.outcomes.push(o)) by {
            assert(t.outcomes =~= t.outcomes.push(o).subrange(0, t.outcomes.len() as int));
        }
        assert forall|a: Seq<Outcome>, b: Seq<Outcome>|
            t.outcomes.is_prefix_of(a) && #[trigger] a.is_prefix_of(b) implies t.outcomes.is_prefix_of(
            b,
        ) by {
            assert(t.outcomes =~= b.subrange(0, t.outcomes.len() as int));
        }
    }
    assert(t.outcomes.is_prefix_of(t.outcomes)) by {
        assert(t.outcomes =~= t.outcomes.subrange(0, t.outcomes.len() as int));
    }
}

/// Going on from two states that differ in past outcomes only ends at the
/// same group, at the same stage, with the same outcomes added.
proof fn lemma_settle_alike(a: TickView, b: TickView)
    requires
        a.groups == b.groups,
        a.public_ip == b.public_ip,
        a.outcomes.len() == b.outcomes.len(),
        a.outcomes.len() <= a.groups.len(),
        a.stage is Extracted,
        b.stage is Extracted,
    ensures
        a.settle().stage == b.settle().stage,
        a.settle().outcomes.len() == b.settle().outcomes.len(),
        forall|i: int|
            a.outcomes.len() <= i < a.settle().outcomes.len() ==> a.settle().outcomes[i]
                == b.settle().outcomes[i],
    decreases a.groups.len() - a.outcomes.len(),
{
    if !a.finished() {
        let reason = match a.groups[a.outcomes.len() as int] {
            Err(e) => Some(SkipReason::Config(e.kind)),
            Ok(_) => None,
        };
        if let Some(reason) = reason {
            lemma_settle_alike(a.skip(reason), b.skip(reason));
            lemma_settle(a.skip(reason));
            lemma_settle(b.skip(reason));
            let n = a.outcomes.len() as int;
            assert(a.settle().outcomes[n] == a.skip(reason).outcomes[n]);
            assert(b.settle().outcomes[n] == b.skip(reason).outcomes[n]);
        }
    }
}

/// What a tick does after a group does not depend on how the group ended.
/// Had the group in hand been updated instead of skipped, for whatever
/// reason, the tick would stand at the same group and stage and wait for the
/// same outside work, and every other group would have the same outcome.
pub proof fn lemma_failure_like_success(t: TickView, reason: SkipReason, zone_id: Seq<char>)
    requires
        t.wf(),
        !t.finished(),
    ensures
        ({
            let failed = t.close(Outcome::Skipped(reason));
            let done = t.close(Outcome::Updated);
            let n = t.outcomes.len() as int;
            &&& failed.groups == done.groups
            &&& failed.public_ip == done.public_ip
            &&& failed.stage == done.stage
            &&& failed.pending(zone_id) == done.pending(zone_id)
            &&& failed.outcomes.len() == done.outcomes.len()
            &&& failed.outcomes.len() > n
            &&& failed.outcomes[n] == Outcome::Skipped(reason)
            &&& done.outcomes[n] == Outcome::Updated
            &&& forall|i: int|
                0 <= i < failed.outcomes.len() && i != n ==> failed.outcomes[i] == done.outcomes[i]
        }),
{
    let a = t.next(Outcome::Skipped(reason));
    let b = t.next(Outcome::Updated);
    let n = t.outcomes.len() as int;
    lemma_settle(a);
    lemma_settle(b);
    lemma_settle_alike(a, b);
    assert(a.settle().outcomes[n] == a.outcomes[n]);
    assert(b.settle().outcomes[n] == b.outcomes[n]);
    assert forall|i: int| 0 <= i < n implies a.settle().outcomes[i] == b.settle().outcomes[i] by {
        assert(a.settle().outcomes[i] == a.outcomes[i]);
        assert(b.settle().outcomes[i] == b.outcomes[i]);
    }
}

/// A group that names its address never has the public address asked for:
/// its target is the address it names, at every stage, and what the tick
/// waits for on its behalf is the provider's records or the update.
pub proof fn lemma_explicit_ip_never_asks(t: TickView, zone_id: Seq<char>)
    requires
        t.wf(),
        !t.finished(),
        t.record().explicit_ip is Some,
    ensures
        !(t.pending(zone_id) is ResolvePublicIp),
        t.stage matches StageView::IpResolved(ip) ==> Some(ip) == t.record().explicit_ip,
        t.stage matches StageView::Matched(ip, _) ==> Some(ip) == t.record().explicit_ip,
{
}

/// A group that names no address has one target, the public address, which
/// is asked for only while the tick does not have it, and is not changed
/// once it is known. That one address is the one by whose family the
/// provider's record is chosen and the one that the update carries.
pub proof fn lemma_one_target(t: TickView, event: EventView, zone_id: Seq<char>)
    requires
        t.wf(),
        !t.finished(),
        t.record().explicit_ip is None,
    ensures
        t.pending(zone_id) is ResolvePublicIp <==> t.public_ip is None,
        t.public_ip is Some ==> t.step(event).public_ip == t.public_ip,
        t.stage matches StageView::IpResolved(ip) ==> t.public_ip == Some(ip),
        t.stage matches StageView::Matched(ip, _) ==> t.public_ip == Some(ip),
        t.step(event).groups == t.groups,
        t.stage is Extracted ==> (event matches EventView::PublicIp(Some(ip)) ==> t.step(
            event,
        ).stage == StageView::IpResolved(ip)),
        t.stage matches StageView::IpResolved(ip) ==> (event matches EventView::Records(
            Some(candidates),
        ) ==> (t.step(event).stage matches StageView::Matched(chosen, id) ==> {
            &&& chosen == ip
            &&& exists|k: int|
                is_first_of_family(candidates, ip.spec_family(), k) && id
                    == #[trigger] candidates[k].id
        })),
        t.stage matches StageView::Matched(ip, id) ==> {
            &&& t.pending(zone_id) matches ActionView::UpdateRecord(request)
            &&& request.body matches Some(update)
            &&& update.content == ip
            &&& update.id == id
        },
{
    lemma_step_goes_on(t, event);
    if t.public_ip is Some {
        lemma_settle(t.next(Outcome::Updated));
        lemma_settle(t.next(Outcome::Skipped(SkipReason::LookupFailed)));
        lemma_settle(t.next(Outcome::Skipped(SkipReason::RecordNotFound)));
        lemma_settle(t.next(Outcome::Skipped(SkipReason::NoFamilyMatch)));
        lemma_settle(t.next(Outcome::Skipped(SkipReason::UpdateFailed)));
    }
    if let StageView::IpResolved(ip) = t.stage {
        if let EventView::Records(Some(candidates)) = event {
            if let StageView::Matched(chosen, id) = t.step(event).stage {
                lemma_settle(t.next(Outcome::Skipped(SkipReason::RecordNotFound)));
                lemma_settle(t.next(Outcome::Skipped(SkipReason::NoFamilyMatch)));
                lemma_first_of_family(candidates, ip.spec_family());
                let k = first_of_family(candidates, ip.spec_family())->Some_0;
                assert(is_first_of_family(candidates, ip.spec_family(), k));
            }
        }
    }
}

/// Of candidates of both families, the one chosen is of the family asked
/// for, and it is the first such in the provider's order; none is chosen
/// exactly when no candidate is of that family.
pub proof fn lemma_first_of_family(candidates: Seq<RecordView>, family: AddressFamily)
    ensures
        match first_of_family(candidates, family) {
            Some(k) => is_first_of_family(candidates, family, k),
            None => forall|j: int|
                0 <= j < candidates.len() ==> (#[trigger] candidates[j]).content.spec_family()
                    != family,
        },
    decreases candidates.len(),
{
    if first_of_family(candidates, family) is None {
        assert forall|j: int| 0 <= j < candidates.len() implies (
        #[trigger] candidates[j]).content.spec_family() != family by {
            if candidates[j].content.spec_family() == family {
                lemma_some_first_of_family(candidates, family, j);
            }
        }
    }
}

/// Where some candidate is of a family, one of them is the first.
proof fn lemma_some_first_of_family(candidates: Seq<RecordView>, family: AddressFamily, j: int)
    requires
        0 <= j < candidates.len(),
        candidates[j].content.spec_family() == family,
    ensures
        exists|k: int| is_first_of_family(candidates, family, k),
    decreases j,
{
    if exists|i: int| 0 <= i < j && (#[trigger] candidates[i]).content.spec_family() == family {
        let i = choose|i: int|
            0 <= i < j && (#[trigger] candidates[i]).content.spec_family() == family;
        lemma_some_first_of_family(candidates, family, i);
    } else {
        assert(is_first_of_family(candidates, family, j));
    }
}

/// Where no candidate is of the target address's family, the group is
/// skipped and no update is asked for on its behalf: the group gets its
/// outcome at once, and what the tick then waits for is not an update.
pub proof fn lemma_no_match_no_update(
    t: TickView,
    candidates: Seq<RecordView>,
    zone_id: Seq<char>,
)
    requires
        t.wf(),
        !t.finished(),
        t.stage is IpResolved,
        forall|j: int|
            0 <= j < candidates.len() ==> (#[trigger] candidates[j]).content.spec_family()
                != t.stage->IpResolved_0.spec_family(),
    ensures
        ({
            let after = t.step(EventView::Records(Some(candidates)));
            let n = t.outcomes.len() as int;
            &&& after.outcomes.len() > n
            &&& after.outcomes[n] == Outcome::Skipped(
                if candidates.len() == 0 {
                    SkipReason::RecordNotFound
                } else {
                    SkipReason::NoFamilyMatch
                },
            )
            &&& !(after.stage is Matched)
            &&& !(after.pending(zone_id) is UpdateRecord)
        }),
{
    let family = t.stage->IpResolved_0.spec_family();
    lemma_first_of_family(candidates, family);
    if let Some(k) = first_of_family(candidates, family) {
        assert(candidates[k].content.spec_family() == family);
    }
    let reason = if candidates.len() == 0 {
        SkipReason::RecordNotFound
    } else {
        SkipReason::NoFamilyMatch
    };
    let next = t.next(Outcome::Skipped(reason));
    lemma_settle(next);
    assert(t.step(EventView::Records(Some(candidates))) == next.settle());
    assert(next.settle().outcomes[t.outcomes.len() as int] == next.outcomes[t.outcomes.len() as int]);
}

/// Going on keeps two ticks in step of which one has a group that the other
/// lacks.
proof fn lemma_settle_in_step(a: TickView, b: TickView, n: int)
    requires
        a.in_step_without(b, n),
        a.stage is Extracted,
    ensures
        a.settle().in_step_without(b.settle(), n),
    decreases a.groups.len() - a.outcomes.len(),
{
    if !a.finished() {
        let m = a.outcomes.len() as int;
        assert(b.groups[m - 1] == a.groups[m]);
        if let Err(e) = a.groups[m] {
            let reason = SkipReason::Config(e.kind);
            assert(a.skip(reason).outcomes.remove(n) == b.skip(reason).outcomes);
            lemma_settle_in_step(a.skip(reason), b.skip(reason), n);
        }
    }
}

/// A group that failed leaves the rest of the tick as it would be without
/// that group. When the group in hand is skipped, for whatever reason, the
/// tick stands where the tick over the configuration without that group
/// stands: at the same stage of the same group, waiting for the same outside
/// work, with the same outcome for every other group.
pub proof fn lemma_failure_leaves_rest(t: TickView, reason: SkipReason, zone_id: Seq<char>)
    requires
        t.wf(),
        !t.finished(),
    ensures
        ({
            let n = t.outcomes.len() as int;
            let after = t.close(Outcome::Skipped(reason));
            &&& after.in_step_without(t.without(n), n)
            &&& after.pending(zone_id) == t.without(n).pending(zone_id)
            &&& after.outcomes[n] == Outcome::Skipped(reason)
        }),
{
    let n = t.outcomes.len() as int;
    let a = t.next(Outcome::Skipped(reason));
    let b = TickView {
        groups: t.groups.remove(n),
        outcomes: t.outcomes.take(n),
        public_ip: t.public_ip,
        stage: StageView::Extracted,
    };
    assert(t.outcomes.take(n) == t.outcomes);
    assert(a.outcomes.remove(n) == b.outcomes);
    lemma_settle_in_step(a, b, n);
    lemma_in_step_pending(a.settle(), b.settle(), n, zone_id);
    lemma_settle(a);
    assert(a.settle().outcomes[n] == a.outcomes[n]);
}

/// Two ticks in step wait for the same outside work.
proof fn lemma_in_step_pending(a: TickView, b: TickView, n: int, zone_id: Seq<char>)
    requires
        a.in_step_without(b, n),
    ensures
        a.pending(zone_id) == b.pending(zone_id),
        a.finished() == b.finished(),
        !a.finished() ==> a.groups[a.outcomes.len() as int] == b.groups[b.outcomes.len() as int],
{
    if !a.finished() {
        assert(b.groups[a.outcomes.len() - 1] == a.groups[a.outcomes.len() as int]);
    }
}

/// Two ticks that stand in step stay in step, whatever comes: after the same
/// event they stand at the same stage of the same group again and wait for
/// the same outside work, so the updates of the groups after a failed one
/// are those of the configuration without it.
pub proof fn lemma_in_step_stays(
    a: TickView,
    b: TickView,
    n: int,
    event: EventView,
    zone_id: Seq<char>,
)
    requires
        a.in_step_without(b, n),
    ensures
        a.step(event).in_step_without(b.step(event), n),
        a.pending(zone_id) == b.pending(zone_id),
        a.step(event).pending(zone_id) == b.step(event).pending(zone_id),
{
    lemma_in_step_pending(a, b, n, zone_id);
    if !a.finished() {
        assert forall|o: Outcome| #[trigger]
            a.next(o).settle().in_step_without(b.next(o).settle(), n) by {
            assert(a.next(o).outcomes.remove(n) == b.next(o).outcomes);
            lemma_settle_in_step(a.next(o), b.next(o), n);
        }
        assert(a.close(Outcome::Updated).in_step_without(b.close(Outcome::Updated), n));
        assert(a.close(Outcome::Skipped(SkipReason::IpResolutionFailed)).in_step_without(
            b.close(Outcome::Skipped(SkipReason::IpResolutionFailed)),
            n,
        ));
        assert(a.close(Outcome::Skipped(SkipReason::LookupFailed)).in_step_without(
            b.close(Outcome::Skipped(SkipReason::LookupFailed)),
            n,
        ));
        assert(a.close(Outcome::Skipped(SkipReason::RecordNotFound)).in_step_without(
            b.close(Outcome::Skipped(SkipReason::RecordNotFound)),
            n,
        ));
        assert(a.close(Outcome::Skipped(SkipReason::NoFamilyMatch)).in_step_without(
            b.close(Outcome::Skipped(SkipReason::NoFamilyMatch)),
            n,
        ));
        assert(a.close(Outcome::Skipped(SkipReason::UpdateFailed)).in_step_without(
            b.close(Outcome::Skipped(SkipReason::UpdateFailed)),
            n,
        ));
    }
    lemma_in_step_pending(a.step(event), b.step(event), n, zone_id);
}

} // verus!
