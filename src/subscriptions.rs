//! The subscription ledger that consumes minimum-age proofs.
//!
//! Each call takes the caller's context (account, block, value sent) and, for
//! a new subscription, the verifier's answer on the caller's proof; it returns
//! the new state and the transfers and events that the hosting chain performs,
//! in order. A call that fails leaves the state as it was.
use crate::public_input::{public_input_bytes, public_input_of, public_input_values, wire_form};
use vstd::prelude::*;
use vstd::string::StrSliceExecFns;
use vstd::utf8::encode_utf8;

verus! {

pub type AccountId = [u8; 32];

pub type Balance = u128;

pub type BlockNumber = u32;

pub type Hash = [u8; 32];

/// Blocks in a week, at one block per second.
pub const BLOCKS_PER_WEEK: u32 = 3600 * 24 * 7;

/// Blocks in a payment month, as the ledger counts it: thirty weeks of blocks.
pub const BLOCKS_PER_MONTH: u32 = 3600 * 24 * 7 * 30;

/// How often a subscription is paid.
#[derive(Clone, Copy, Debug, PartialEq, Eq, Structural)]
pub enum PaymentInterval {
    Week,
    Month,
}

/// Blocks in one payment interval.
pub open spec fn interval_blocks(interval: PaymentInterval) -> nat {
    match interval {
        PaymentInterval::Week => BLOCKS_PER_WEEK as nat,
        PaymentInterval::Month => BLOCKS_PER_MONTH as nat,
    }
}

/// A registered subscription.
#[derive(Debug)]
pub struct Subscription {
    pub payment_interval: PaymentInterval,
    /// Intervals the subscriber declared, and paid for up front.
    pub declared_payment_intervals: u32,
    /// Intervals already paid out to the owner.
    pub paid_intervals: u32,
    /// Price of one interval, fixed at registration.
    pub price_per_interval: Balance,
    pub registered_at: BlockNumber,
    pub last_payment_at: BlockNumber,
    /// Handle of the subscriber on an outside channel, such as a chat id.
    pub external_channel_handle: String,
}

impl Subscription {
    /// No more paid than declared, and the declared total fits a balance.
    pub open spec fn wf(self) -> bool {
        &&& self.paid_intervals <= self.declared_payment_intervals
        &&& self.price_per_interval * self.declared_payment_intervals <= u128::MAX
    }

    /// Value held for declared intervals that are not paid yet.
    pub open spec fn unpaid_value(self) -> int {
        self.price_per_interval * (self.declared_payment_intervals - self.paid_intervals)
    }

    /// Whole intervals elapsed between the last payment and `block`.
    pub open spec fn due_intervals(self, block: BlockNumber) -> nat {
        ((block - self.last_payment_at) / (interval_blocks(self.payment_interval) as int)) as nat
    }

    /// Settling at `block` pays fewer intervals than are due, and so cancels.
    pub open spec fn runs_out(self, block: BlockNumber) -> bool {
        self.declared_payment_intervals - self.paid_intervals < self.due_intervals(block)
    }

    /// Intervals that settling at `block` pays.
    pub open spec fn settled_intervals(self, block: BlockNumber) -> nat {
        if self.runs_out(block) {
            (self.declared_payment_intervals - self.paid_intervals) as nat
        } else {
            self.due_intervals(block)
        }
    }

    /// `self` after a settlement at `block` that keeps it.
    pub open spec fn settled(self, block: BlockNumber, other: Subscription) -> bool {
        &&& other.payment_interval == self.payment_interval
        &&& other.declared_payment_intervals == self.declared_payment_intervals
        &&& other.price_per_interval == self.price_per_interval
        &&& other.registered_at == self.registered_at
        &&& other.external_channel_handle@ == self.external_channel_handle@
        &&& if self.due_intervals(block) == 0 {
            other.paid_intervals == self.paid_intervals && other.last_payment_at == self.last_payment_at
        } else {
            other.paid_intervals == self.paid_intervals + self.settled_intervals(block)
                && other.last_payment_at == block
        }
    }
}

/// A subscription as shown to notification services.
#[derive(Debug, Clone, PartialEq, Eq)]
pub struct ActiveSubscriptionAttr {
    pub for_account: AccountId,
    pub external_channel_handle: Vec<u8>,
}

/// Event: a subscription was added.
#[derive(Debug)]
pub struct NewSubscription {
    pub for_account: AccountId,
    pub external_channel_handle: Vec<u8>,
}

/// Event: a subscriber cancelled.
#[derive(Debug)]
pub struct CancelledSubscription {
    pub for_account: AccountId,
}

/// Event: a settlement cancelled subscriptions that ran out of funds.
#[derive(Debug)]
pub struct CancelledSubscriptions {
    pub for_accounts: Vec<ActiveSubscriptionAttr>,
}

/// A transfer of tokens out of the ledger's account.
#[derive(Debug, Clone, Copy, PartialEq, Eq)]
pub struct Transfer {
    pub to: AccountId,
    pub amount: Balance,
}

/// What the host performs after a successful call, in order.
#[derive(Debug)]
pub enum Effect {
    Transfer(Transfer),
    NewSubscription(NewSubscription),
    CancelledSubscription(CancelledSubscription),
    CancelledSubscriptions(CancelledSubscriptions),
}

/// Who calls, at which block, sending how much.
#[derive(Debug, Clone, Copy, PartialEq, Eq)]
pub struct CallContext {
    pub caller: AccountId,
    pub block_number: BlockNumber,
    pub transferred_value: Balance,
}

/// Why a call failed.
#[derive(Debug, Clone, PartialEq, Eq)]
pub enum Error {
    /// The caller is not the owner.
    NotAuthorized,
    /// The caller already has a subscription.
    AlreadyRegisterred(AccountId),
    /// Zero intervals to pay.
    InvalidIntervalsToPay(u32),
    /// Less was sent than the declared intervals cost; holds the cost.
    SubscriptionCostTooHigh(Balance),
    /// Empty channel handle.
    MissingChannelHandle,
    /// The caller has no subscription.
    NotRegisterred(AccountId),
    /// The new owner is the current one.
    NewOwnerMustBeDifferent,
    /// An active account has no subscription record.
    InconsistentSubscriptionData(AccountId),
    /// The host environment failed.
    InkEnvFailure(String),
    /// The caller's account cannot be a proof's public input.
    ProofCallerAddressNotSerializable,
    /// The caller's minimum-age proof was rejected.
    InvalidProofForMinAgeRequired,
}

/// The ledger's state.
#[derive(Debug)]
pub struct Subscriptions {
    /// Receives payments; alone may settle and hand over ownership.
    pub owner: AccountId,
    /// Price of one block of subscription.
    pub price_per_block: Balance,
    /// Registered subscriptions, one per account, in order of registration.
    pub subscriptions: Vec<(AccountId, Subscription)>,
    /// Accounts with a subscription, in the same order.
    pub active_subscriptions: Vec<AccountId>,
    /// Hash of the verifying key that checks subscribers' proofs.
    pub proof_vk: Hash,
    /// The minimum age that subscribers prove.
    pub proof_min_required_age: u128,
}

/// The price of one interval at `price_per_block`, if it fits a balance.
pub open spec fn interval_price(price_per_block: Balance, interval: PaymentInterval) -> int {
    price_per_block * interval_blocks(interval)
}

/// A registered account and its subscription.
pub type Entry = (AccountId, Subscription);

/// What a subscriber pays to register: every declared interval up front.
pub open spec fn registration_cost(price_per_block: Balance, interval: PaymentInterval, intervals: u32) -> int {
    interval_price(price_per_block, interval) * intervals
}

/// Tokens that settling `s` at `block` pays to the owner.
pub open spec fn settlement_amount(s: Subscription, block: BlockNumber) -> int {
    if s.due_intervals(block) == 0 {
        0
    } else {
        s.price_per_interval * s.settled_intervals(block)
    }
}

/// `new` is what settling `old` at `block` keeps, in order.
pub open spec fn settles_to(old: Seq<Entry>, new: Seq<Entry>, block: BlockNumber) -> bool
    decreases old.len(),
{
    if old.len() == 0 {
        new.len() == 0
    } else {
        let e = old.last();
        if e.1.runs_out(block) {
            settles_to(old.drop_last(), new, block)
        } else {
            &&& new.len() > 0
            &&& new.last().0 == e.0
            &&& e.1.settled(block, new.last().1)
            &&& settles_to(old.drop_last(), new.drop_last(), block)
        }
    }
}

/// The nonzero amounts that settling `old` at `block` pays, in order.
pub open spec fn settlement_payments(old: Seq<Entry>, block: BlockNumber) -> Seq<int>
    decreases old.len(),
{
    if old.len() == 0 {
        Seq::empty()
    } else {
        let e = old.last();
        let earlier = settlement_payments(old.drop_last(), block);
        if settlement_amount(e.1, block) > 0 {
            earlier.push(settlement_amount(e.1, block))
        } else {
            earlier
        }
    }
}

/// The entries that settling `old` at `block` cancels, in order.
pub open spec fn settlement_cancels(old: Seq<Entry>, block: BlockNumber) -> Seq<Entry>
    decreases old.len(),
{
    if old.len() == 0 {
        Seq::empty()
    } else {
        let e = old.last();
        let earlier = settlement_cancels(old.drop_last(), block);
        if e.1.runs_out(block) {
            earlier.push(e)
        } else {
            earlier
        }
    }
}

/// `attr` shows the entry `e`.
pub open spec fn shows(attr: ActiveSubscriptionAttr, e: Entry) -> bool {
    attr.for_account == e.0 && attr.external_channel_handle@ == encode_utf8(e.1.external_channel_handle@)
}

/// Compares two accounts byte by byte.
fn same_account(a: &AccountId, b: &AccountId) -> (r: bool)
    ensures
        r == (a@ == b@),
{
    let mut i: usize = 0;
    while i < 32
        invariant
            i <= 32,
            forall|j: int| 0 <= j < i ==> a@[j] == b@[j],
        decreases 32 - i,
    {
        if a[i] != b[i] {
            return false;
        }
        i = i + 1;
    }
    assert(a@ =~= b@);
    true
}

impl Subscriptions {
    /// Keys unique, the active list mirrors the keys, every record well formed.
    pub open spec fn wf(self) -> bool {
        &&& self.active_subscriptions@.len() == self.subscriptions@.len()
        &&& forall|i: int|
            0 <= i < self.subscriptions@.len() ==> #[trigger] self.active_subscriptions@[i]@ == self.subscriptions@[i].0@
        &&& forall|i: int, j: int|
            0 <= i < j < self.subscriptions@.len() ==> #[trigger] self.subscriptions@[i].0@ != #[trigger] self.subscriptions@[j].0@
        &&& forall|i: int| 0 <= i < self.subscriptions@.len() ==> (#[trigger] self.subscriptions@[i]).1.wf()
    }

    /// `account` has a subscription.
    pub open spec fn registered(self, account: Seq<u8>) -> bool {
        exists|i: int| 0 <= i < self.subscriptions@.len() && #[trigger] self.subscriptions@[i].0@ == account
    }

    /// Everything but the subscriptions is as in `other`.
    pub open spec fn same_settings(self, other: Self) -> bool {
        &&& self.owner == other.owner
        &&& self.price_per_block == other.price_per_block
        &&& self.proof_vk == other.proof_vk
        &&& self.proof_min_required_age == other.proof_min_required_age
    }

    /// A ledger owned by `caller`, with no subscriptions.
    pub fn new(caller: AccountId, price_per_block: Balance, proof_vk: Hash, proof_min_required_age: u128) -> (r: Self)
        ensures
            r.wf(),
            r.owner == caller,
            r.price_per_block == price_per_block,
            r.proof_vk == proof_vk,
            r.proof_min_required_age == proof_min_required_age,
            r.subscriptions@.len() == 0,
    {
        Subscriptions {
            owner: caller,
            price_per_block,
            subscriptions: Vec::new(),
            active_subscriptions: Vec::new(),
            proof_vk,
            proof_min_required_age,
        }
    }

    /// Where `account`'s subscription stands, if it has one.
    pub fn find(&self, account: &AccountId) -> (r: Option<usize>)
        requires
            self.wf(),
        ensures
            r is None <==> !self.registered(account@),
            r is Some ==> r->Some_0 < self.subscriptions@.len() && self.subscriptions@[r->Some_0 as int].0@ == account@,
    {
        let mut i: usize = 0;
        while i < self.subscriptions.len()
            invariant
                i <= self.subscriptions@.len(),
                forall|j: int| 0 <= j < i ==> self.subscriptions@[j].0@ != account@,
            decreases self.subscriptions@.len() - i,
        {
            if same_account(&self.subscriptions[i].0, account) {
                return Some(i);
            }
            i = i + 1;
        }
        None
    }

    /// `account`'s subscription, if it has one.
    pub fn subscription(&self, account: &AccountId) -> (r: Option<&Subscription>)
        requires
            self.wf(),
        ensures
            r is None <==> !self.registered(account@),
            r is Some ==> exists|i: int|
                0 <= i < self.subscriptions@.len() && self.subscriptions@[i].0@ == account@
                    && r->Some_0 == &self.subscriptions@[i].1,
    {
        match self.find(account) {
            Some(i) => Some(&self.subscriptions[i].1),
            None => None,
        }
    }

    /// Fails unless `caller` is the owner.
    pub fn authorized(&self, caller: &AccountId) -> (r: Result<(), Error>)
        ensures
            r is Ok <==> caller@ == self.owner@,
            r is Err ==> r == Err::<(), Error>(Error::NotAuthorized),
    {
        if same_account(caller, &self.owner) {
            Ok(())
        } else {
            Err(Error::NotAuthorized)
        }
    }

    /// Fails on an empty channel handle.
    pub fn validate_channel_handle(&self, channel_handle: &str) -> (r: Result<(), Error>)
        ensures
            r is Ok <==> encode_utf8(channel_handle@).len() > 0,
            r is Err ==> r == Err::<(), Error>(Error::MissingChannelHandle),
    {
        if channel_handle.is_empty() {
            Err(Error::MissingChannelHandle)
        } else {
            Ok(())
        }
    }

    /// Fails on zero intervals to pay.
    pub fn validate_intervals_to_pay(&self, intervals_to_pay: u32) -> (r: Result<(), Error>)
        ensures
            r is Ok <==> intervals_to_pay > 0,
            r is Err ==> r == Err::<(), Error>(Error::InvalidIntervalsToPay(intervals_to_pay)),
    {
        if intervals_to_pay == 0 {
            Err(Error::InvalidIntervalsToPay(intervals_to_pay))
        } else {
            Ok(())
        }
    }

    /// The price of one interval, if it fits a balance.
    pub fn price_per_interval(&self, payment_interval: PaymentInterval) -> (r: Option<Balance>)
        ensures
            r is Some <==> interval_price(self.price_per_block, payment_interval) <= u128::MAX,
            r is Some ==> r->Some_0 == interval_price(self.price_per_block, payment_interval),
    {
        let blocks: u128 = match payment_interval {
            PaymentInterval::Week => BLOCKS_PER_WEEK as u128,
            PaymentInterval::Month => BLOCKS_PER_MONTH as u128,
        };
        self.price_per_block.checked_mul(blocks)
    }

    /// Whole intervals from `last_payment_at` to `curr_block`.
    pub fn to_pay_intervals(&self, payment_interval: PaymentInterval, curr_block: BlockNumber, last_payment_at: BlockNumber) -> (r: u32)
        requires
            last_payment_at <= curr_block,
        ensures
            r == (curr_block - last_payment_at) / (interval_blocks(payment_interval) as int),
    {
        (curr_block - last_payment_at) / match payment_interval {
            PaymentInterval::Week => BLOCKS_PER_WEEK,
            PaymentInterval::Month => BLOCKS_PER_MONTH,
        }
    }

    /// The public input of `caller`'s proof: the minimum age and the caller's
    /// account halves, in wire form.
    pub fn proof_public_inputs(&self, caller: &AccountId) -> (r: Vec<u8>)
        ensures
            r@ == wire_form(public_input_of(self.proof_min_required_age as nat, caller@)),
    {
        let values = public_input_values(self.proof_min_required_age, caller);
        public_input_bytes(&values)
    }

    /// Where `account`'s subscription stands, for a registered account.
    pub open spec fn index_of(self, account: Seq<u8>) -> int {
        choose|i: int| 0 <= i < self.subscriptions@.len() && #[trigger] self.subscriptions@[i].0@ == account
    }

    /// Registers a subscription for the caller, who sends the cost of every
    /// declared interval; `proof_accepted` is the verifier's answer on the
    /// caller's minimum-age proof against `proof_public_inputs`. Pays one
    /// interval to the owner and returns the excess to the caller.
    pub fn add_subscription(
        &mut self,
        ctx: &CallContext,
        payment_interval: PaymentInterval,
        intervals_to_pay: u32,
        external_channel_handle: String,
        proof_accepted: bool,
    ) -> (r: Result<Vec<Effect>, Error>)
        requires
            old(self).wf(),
        ensures
            final(self).wf(),
            final(self).same_settings(*old(self)),
            r is Err ==> final(self).subscriptions@ == old(self).subscriptions@
                && final(self).active_subscriptions@ == old(self).active_subscriptions@,
            old(self).registered(ctx.caller@) ==> r == Err::<Vec<Effect>, Error>(Error::AlreadyRegisterred(ctx.caller)),
            !old(self).registered(ctx.caller@) && intervals_to_pay == 0
                ==> r == Err::<Vec<Effect>, Error>(Error::InvalidIntervalsToPay(intervals_to_pay)),
            !old(self).registered(ctx.caller@) && intervals_to_pay > 0 && encode_utf8(external_channel_handle@).len() == 0
                ==> r == Err::<Vec<Effect>, Error>(Error::MissingChannelHandle),
            !old(self).registered(ctx.caller@) && intervals_to_pay > 0 && encode_utf8(external_channel_handle@).len() > 0
                && !proof_accepted ==> r == Err::<Vec<Effect>, Error>(Error::InvalidProofForMinAgeRequired),
            !old(self).registered(ctx.caller@) && intervals_to_pay > 0 && encode_utf8(external_channel_handle@).len() > 0
                && proof_accepted ==> {
                let cost = registration_cost(old(self).price_per_block, payment_interval, intervals_to_pay);
                &&& r is Ok <==> cost <= ctx.transferred_value
                &&& cost > u128::MAX ==> r == Err::<Vec<Effect>, Error>(Error::SubscriptionCostTooHigh(u128::MAX))
                &&& ctx.transferred_value < cost <= u128::MAX ==> r == Err::<Vec<Effect>, Error>(
                    Error::SubscriptionCostTooHigh(cost as u128),
                )
            },
            r is Ok ==> {
                let price = interval_price(old(self).price_per_block, payment_interval);
                let cost = registration_cost(old(self).price_per_block, payment_interval, intervals_to_pay);
                let e = final(self).subscriptions@.last();
                &&& final(self).subscriptions@ == old(self).subscriptions@.push(e)
                &&& final(self).active_subscriptions@ == old(self).active_subscriptions@.push(ctx.caller)
                &&& e.0 == ctx.caller
                &&& e.1 == (Subscription {
                    payment_interval,
                    declared_payment_intervals: intervals_to_pay,
                    paid_intervals: 1,
                    price_per_interval: price as u128,
                    registered_at: ctx.block_number,
                    last_payment_at: ctx.block_number,
                    external_channel_handle,
                })
                &&& r->Ok_0@.len() == 3
                &&& r->Ok_0@[0] == Effect::Transfer(Transfer { to: old(self).owner, amount: price as u128 })
                &&& r->Ok_0@[1] == Effect::Transfer(Transfer { to: ctx.caller, amount: (ctx.transferred_value - cost) as u128 })
                &&& match r->Ok_0@[2] {
                    Effect::NewSubscription(ev) => ev.for_account == ctx.caller
                        && ev.external_channel_handle@ == encode_utf8(external_channel_handle@),
                    _ => false,
                }
            },
    {
        let caller = ctx.caller;
        if self.find(&caller).is_some() {
            return Err(Error::AlreadyRegisterred(caller));
        }
        self.validate_intervals_to_pay(intervals_to_pay)?;
        self.validate_channel_handle(external_channel_handle.as_str())?;
        if !proof_accepted {
            return Err(Error::InvalidProofForMinAgeRequired);
        }
        let price_per_interval = match self.price_per_interval(payment_interval) {
            Some(p) => p,
            None => {
                proof {
                    let p = interval_price(self.price_per_block, payment_interval);
                    assert(p * intervals_to_pay >= p) by (nonlinear_arith)
                        requires
                            intervals_to_pay >= 1,
                            p >= 0,
                    ;
                }
                return Err(Error::SubscriptionCostTooHigh(u128::MAX));
            },
        };
        let cost = match price_per_interval.checked_mul(intervals_to_pay as u128) {
            Some(c) => c,
            None => {
                return Err(Error::SubscriptionCostTooHigh(u128::MAX));
            },
        };
        let transferred_value = ctx.transferred_value;
        if transferred_value < cost {
            return Err(Error::SubscriptionCostTooHigh(cost));
        }
        let handle_bytes = external_channel_handle.as_str().as_bytes_vec();
        let subscription = Subscription {
            payment_interval,
            declared_payment_intervals: intervals_to_pay,
            paid_intervals: 1,
            price_per_interval,
            registered_at: ctx.block_number,
            last_payment_at: ctx.block_number,
            external_channel_handle,
        };
        let mut effects: Vec<Effect> = Vec::new();
        effects.push(Effect::Transfer(Transfer { to: self.owner, amount: price_per_interval }));
        effects.push(Effect::Transfer(Transfer { to: caller, amount: transferred_value - cost }));
        effects.push(Effect::NewSubscription(NewSubscription { for_account: caller, external_channel_handle: handle_bytes }));
        let ghost old_subs = self.subscriptions@;
        self.subscriptions.push((caller, subscription));
        self.active_subscriptions.push(caller);
        proof {
            let n = old_subs.len();
            assert forall|i: int, j: int|
                0 <= i < j < self.subscriptions@.len() implies #[trigger] self.subscriptions@[i].0@ != #[trigger] self.subscriptions@[j].0@ by {
                if j == n {
                    assert(old_subs[i] == self.subscriptions@[i]);
                }
            }
            assert forall|i: int| 0 <= i < self.subscriptions@.len() implies #[trigger] self.active_subscriptions@[i]@ == self.subscriptions@[i].0@ by {
                if i < n {
                    assert(old_subs[i] == self.subscriptions@[i]);
                }
            }
            assert forall|i: int| 0 <= i < self.subscriptions@.len() implies (#[trigger] self.subscriptions@[i]).1.wf() by {
                if i < n {
                    assert(old_subs[i] == self.subscriptions@[i]);
                }
            }
        }
        Ok(effects)
    }

    /// Cancels the caller's subscription: returns the value of the unpaid
    /// intervals, and whatever the caller sent, to the caller.
    pub fn cancel_subscription(&mut self, ctx: &CallContext) -> (r: Result<Vec<Effect>, Error>)
        requires
            old(self).wf(),
            old(self).registered(ctx.caller@) ==> old(self).subscriptions@[old(self).index_of(ctx.caller@)].1.unpaid_value()
                + ctx.transferred_value <= u128::MAX,
        ensures
            final(self).wf(),
            final(self).same_settings(*old(self)),
            r is Err <==> !old(self).registered(ctx.caller@),
            r is Err ==> r == Err::<Vec<Effect>, Error>(Error::NotRegisterred(ctx.caller))
                && final(self).subscriptions@ == old(self).subscriptions@
                && final(self).active_subscriptions@ == old(self).active_subscriptions@,
            r is Ok ==> {
                let i = old(self).index_of(ctx.caller@);
                let refund = old(self).subscriptions@[i].1.unpaid_value() + ctx.transferred_value;
                &&& final(self).subscriptions@ == old(self).subscriptions@.remove(i)
                &&& final(self).active_subscriptions@ == old(self).active_subscriptions@.remove(i)
                &&& r->Ok_0@ == if refund > 0 {
                    seq![
                        Effect::Transfer(Transfer { to: ctx.caller, amount: refund as u128 }),
                        Effect::CancelledSubscription(CancelledSubscription { for_account: ctx.caller }),
                    ]
                } else {
                    seq![Effect::CancelledSubscription(CancelledSubscription { for_account: ctx.caller })]
                }
            },
    {
        let caller = ctx.caller;
        let i = match self.find(&caller) {
            Some(i) => i,
            None => {
                return Err(Error::NotRegisterred(caller));
            },
        };
        proof {
            let j = self.index_of(caller@);
            assert(self.subscriptions@[i as int].0@ == caller@);
            if j != i {
                if j < i {
                    assert(self.subscriptions@[j].0@ != self.subscriptions@[i as int].0@);
                } else {
                    assert(self.subscriptions@[i as int].0@ != self.subscriptions@[j].0@);
                }
            }
        }
        let ghost refund = self.subscriptions@[i as int].1.unpaid_value() + ctx.transferred_value;
        let s = &self.subscriptions[i].1;
        let mut to_return: Balance = 0;
        if s.declared_payment_intervals > s.paid_intervals {
            proof {
                let p = s.price_per_interval as int;
                let d = s.declared_payment_intervals as int;
                let q = s.paid_intervals as int;
                assert(p * (d - q) <= p * d) by (nonlinear_arith)
                    requires
                        p >= 0,
                        0 <= q <= d,
                ;
            }
            to_return = s.price_per_interval * ((s.declared_payment_intervals - s.paid_intervals) as u128);
        } else {
            proof {
                let p = s.price_per_interval as int;
                let d = s.declared_payment_intervals as int;
                let q = s.paid_intervals as int;
                assert(p * (d - q) == 0) by (nonlinear_arith)
                    requires
                        q <= d,
                        !(d > q),
                ;
            }
        }
        to_return = to_return + ctx.transferred_value;
        let mut effects: Vec<Effect> = Vec::new();
        if to_return > 0 {
            effects.push(Effect::Transfer(Transfer { to: caller, amount: to_return }));
        }
        effects.push(Effect::CancelledSubscription(CancelledSubscription { for_account: caller }));
        let ghost old_subs = self.subscriptions@;
        let ghost old_active = self.active_subscriptions@;
        self.subscriptions.remove(i);
        self.active_subscriptions.remove(i);
        proof {
            let n = old_subs.len();
            assert forall|a: int, b: int|
                0 <= a < b < self.subscriptions@.len() implies #[trigger] self.subscriptions@[a].0@ != #[trigger] self.subscriptions@[b].0@ by {
                let a0 = if a < i { a } else { a + 1 };
                let b0 = if b < i { b } else { b + 1 };
                assert(self.subscriptions@[a] == old_subs[a0]);
                assert(self.subscriptions@[b] == old_subs[b0]);
            }
            assert forall|a: int| 0 <= a < self.subscriptions@.len() implies #[trigger] self.active_subscriptions@[a]@ == self.subscriptions@[a].0@ by {
                let a0 = if a < i { a } else { a + 1 };
                assert(self.subscriptions@[a] == old_subs[a0]);
                assert(self.active_subscriptions@[a] == old_active[a0]);
            }
            assert forall|a: int| 0 <= a < self.subscriptions@.len() implies (#[trigger] self.subscriptions@[a]).1.wf() by {
                let a0 = if a < i { a } else { a + 1 };
                assert(self.subscriptions@[a] == old_subs[a0]);
            }
            assert(to_return == refund);
            if refund > 0 {
                assert(effects@ =~= seq![
                    Effect::Transfer(Transfer { to: caller, amount: refund as u128 }),
                    Effect::CancelledSubscription(CancelledSubscription { for_account: caller }),
                ]);
            } else {
                assert(effects@ =~= seq![Effect::CancelledSubscription(CancelledSubscription { for_account: caller })]);
            }
        }
        Ok(effects)
    }

    /// The active subscriptions, in order of registration.
    pub fn get_active_subscriptions(&self) -> (r: Result<Vec<ActiveSubscriptionAttr>, Error>)
        requires
            self.wf(),
        ensures
            r is Ok,
            r->Ok_0@.len() == self.subscriptions@.len(),
            forall|i: int| 0 <= i < self.subscriptions@.len() ==> shows(#[trigger] r->Ok_0@[i], self.subscriptions@[i]),
    {
        let mut subs: Vec<ActiveSubscriptionAttr> = Vec::new();
        let mut k: usize = 0;
        while k < self.active_subscriptions.len()
            invariant
                self.wf(),
                k <= self.subscriptions@.len(),
                subs@.len() == k,
                forall|i: int| 0 <= i < k ==> shows(#[trigger] subs@[i], self.subscriptions@[i]),
            decreases self.subscriptions@.len() - k,
        {
            let acct_id = self.active_subscriptions[k];
            let j = match self.find(&acct_id) {
                Some(j) => j,
                None => {
                    return Err(Error::InconsistentSubscriptionData(acct_id));
                },
            };
            proof {
                assert(self.active_subscriptions@[k as int]@ == self.subscriptions@[k as int].0@);
                if j != k {
                    if j < k {
                        assert(self.subscriptions@[j as int].0@ != self.subscriptions@[k as int].0@);
                    } else {
                        assert(self.subscriptions@[k as int].0@ != self.subscriptions@[j as int].0@);
                    }
                }
                assert(acct_id@ == self.subscriptions@[k as int].0@);
                assert(acct_id == self.subscriptions@[k as int].0);
            }
            let handle = self.subscriptions[j].1.external_channel_handle.as_str().as_bytes_vec();
            subs.push(ActiveSubscriptionAttr { for_account: acct_id, external_channel_handle: handle });
            k = k + 1;
        }
        Ok(subs)
    }

    /// Hands ownership to `new_owner`; only the owner may.
    pub fn transfer_ownership(&mut self, ctx: &CallContext, new_owner: AccountId) -> (r: Result<(), Error>)
        ensures
            ctx.caller@ != old(self).owner@ ==> r == Err::<(), Error>(Error::NotAuthorized),
            ctx.caller@ == old(self).owner@ && new_owner@ == old(self).owner@ ==> r == Err::<(), Error>(
                Error::NewOwnerMustBeDifferent,
            ),
            r is Ok <==> ctx.caller@ == old(self).owner@ && new_owner@ != old(self).owner@,
            r is Ok ==> final(self).owner == new_owner,
            r is Err ==> final(self).owner == old(self).owner,
            final(self).price_per_block == old(self).price_per_block,
            final(self).proof_vk == old(self).proof_vk,
            final(self).proof_min_required_age == old(self).proof_min_required_age,
            final(self).subscriptions@ == old(self).subscriptions@,
            final(self).active_subscriptions@ == old(self).active_subscriptions@,
    {
        self.authorized(&ctx.caller)?;
        if same_account(&new_owner, &self.owner) {
            return Err(Error::NewOwnerMustBeDifferent);
        }
        self.owner = new_owner;
        Ok(())
    }

    /// Authorises an upgrade of the ledger's code to `code_hash`; only the
    /// owner may. Returns the hash for the host to install.
    pub fn set_code(&self, ctx: &CallContext, code_hash: Hash) -> (r: Result<Hash, Error>)
        ensures
            r is Ok <==> ctx.caller@ == self.owner@,
            r is Ok ==> r->Ok_0 == code_hash,
            r is Err ==> r == Err::<Hash, Error>(Error::NotAuthorized),
    {
        self.authorized(&ctx.caller)?;
        Ok(code_hash)
    }

    /// Settles every subscription at the current block: pays the owner for
    /// the intervals due, as far as each subscription's declared intervals
    /// reach, and cancels those whose declared intervals run out. Only the
    /// owner may call it.
    pub fn payment_settlement(&mut self, ctx: &CallContext) -> (r: Result<Vec<Effect>, Error>)
        requires
            old(self).wf(),
            forall|i: int|
                0 <= i < old(self).subscriptions@.len() ==> (#[trigger] old(self).subscriptions@[i]).1.last_payment_at
                    <= ctx.block_number,
        ensures
            final(self).wf(),
            final(self).same_settings(*old(self)),
            r is Err <==> ctx.caller@ != old(self).owner@,
            r is Err ==> r == Err::<Vec<Effect>, Error>(Error::NotAuthorized)
                && final(self).subscriptions@ == old(self).subscriptions@
                && final(self).active_subscriptions@ == old(self).active_subscriptions@,
            r is Ok ==> {
                let block = ctx.block_number;
                let pays = settlement_payments(old(self).subscriptions@, block);
                let cancels = settlement_cancels(old(self).subscriptions@, block);
                &&& settles_to(old(self).subscriptions@, final(self).subscriptions@, block)
                &&& r->Ok_0@.len() == pays.len() + if cancels.len() > 0 { 1int } else { 0int }
                &&& forall|i: int|
                    0 <= i < pays.len() ==> #[trigger] r->Ok_0@[i] == Effect::Transfer(
                        Transfer { to: old(self).owner, amount: pays[i] as u128 },
                    )
                &&& cancels.len() > 0 ==> match r->Ok_0@.last() {
                    Effect::CancelledSubscriptions(ev) => ev.for_accounts@.len() == cancels.len()
                        && forall|i: int| 0 <= i < cancels.len() ==> shows(#[trigger] ev.for_accounts@[i], cancels[i]),
                    _ => false,
                }
            },
    {
        self.authorized(&ctx.caller)?;
        let block = ctx.block_number;
        let ghost old_subs = self.subscriptions@;
        let mut kept: Vec<Entry> = Vec::new();
        let mut kept_active: Vec<AccountId> = Vec::new();
        let mut effects: Vec<Effect> = Vec::new();
        let mut subs_to_cancel: Vec<ActiveSubscriptionAttr> = Vec::new();
        let ghost mut origin: Seq<int> = Seq::empty();
        let mut k: usize = 0;
        while k < self.subscriptions.len()
            invariant
                self.wf(),
                self.subscriptions@ == old_subs,
                forall|i: int| 0 <= i < old_subs.len() ==> (#[trigger] old_subs[i]).1.last_payment_at <= block,
                k <= old_subs.len(),
                settles_to(old_subs.subrange(0, k as int), kept@, block),
                effects@.len() == settlement_payments(old_subs.subrange(0, k as int), block).len(),
                forall|i: int|
                    0 <= i < effects@.len() ==> #[trigger] effects@[i] == Effect::Transfer(
                        Transfer { to: self.owner, amount: settlement_payments(old_subs.subrange(0, k as int), block)[i] as u128 },
                    ),
                subs_to_cancel@.len() == settlement_cancels(old_subs.subrange(0, k as int), block).len(),
                forall|i: int|
                    0 <= i < subs_to_cancel@.len() ==> shows(
                        #[trigger] subs_to_cancel@[i],
                        settlement_cancels(old_subs.subrange(0, k as int), block)[i],
                    ),
                origin.len() == kept@.len(),
                kept_active@.len() == kept@.len(),
                forall|a: int| 0 <= a < kept@.len() ==> 0 <= #[trigger] origin[a] < k,
                forall|a: int, b: int| 0 <= a < b < kept@.len() ==> #[trigger] origin[a] < #[trigger] origin[b],
                forall|a: int| 0 <= a < kept@.len() ==> (#[trigger] kept@[a]).0@ == old_subs[origin[a]].0@,
                forall|a: int| 0 <= a < kept@.len() ==> (#[trigger] kept_active@[a])@ == kept@[a].0@,
                forall|a: int| 0 <= a < kept@.len() ==> (#[trigger] kept@[a]).1.wf(),
            decreases old_subs.len() - k,
        {
            let ghost prefix = old_subs.subrange(0, k as int);
            let ghost longer = old_subs.subrange(0, k + 1);
            proof {
                assert(longer.drop_last() =~= prefix);
                assert(longer.last() == old_subs[k as int]);
            }
            let acct_id = self.subscriptions[k].0;
            let s = &self.subscriptions[k].1;
            proof {
                assert(s.wf());
            }
            let due = self.to_pay_intervals(s.payment_interval, block, s.last_payment_at);
            if due == 0 {
                let same = Subscription {
                    payment_interval: s.payment_interval,
                    declared_payment_intervals: s.declared_payment_intervals,
                    paid_intervals: s.paid_intervals,
                    price_per_interval: s.price_per_interval,
                    registered_at: s.registered_at,
                    last_payment_at: s.last_payment_at,
                    external_channel_handle: s.external_channel_handle.clone(),
                };
                let ghost kept_before = kept@;
                kept.push((acct_id, same));
                kept_active.push(acct_id);
                proof {
                    origin = origin.push(k as int);
                    assert(kept@.drop_last() =~= kept_before);
                }
            } else {
                let remaining: u32 = s.declared_payment_intervals - s.paid_intervals;
                let mut to_pay_intervals: u32 = due;
                let mut cancel_subscription = false;
                if remaining < due {
                    to_pay_intervals = remaining;
                    cancel_subscription = true;
                }
                proof {
                    let p = s.price_per_interval as int;
                    let d = s.declared_payment_intervals as int;
                    let t = to_pay_intervals as int;
                    assert(p * t <= p * d) by (nonlinear_arith)
                        requires
                            p >= 0,
                            0 <= t <= d,
                    ;
                }
                let to_pay: Balance = s.price_per_interval * (to_pay_intervals as u128);
                if to_pay > 0 {
                    effects.push(Effect::Transfer(Transfer { to: self.owner, amount: to_pay }));
                }
                let paid_intervals: u32 = s.paid_intervals + to_pay_intervals;
                if cancel_subscription {
                    let handle = s.external_channel_handle.as_str().as_bytes_vec();
                    subs_to_cancel.push(ActiveSubscriptionAttr { for_account: acct_id, external_channel_handle: handle });
                } else {
                    let settled = Subscription {
                        payment_interval: s.payment_interval,
                        declared_payment_intervals: s.declared_payment_intervals,
                        paid_intervals,
                        price_per_interval: s.price_per_interval,
                        registered_at: s.registered_at,
                        last_payment_at: block,
                        external_channel_handle: s.external_channel_handle.clone(),
                    };
                    let ghost kept_before = kept@;
                    kept.push((acct_id, settled));
                    kept_active.push(acct_id);
                    proof {
                        origin = origin.push(k as int);
                        assert(kept@.drop_last() =~= kept_before);
                    }
                }
            }
            k = k + 1;
        }
        proof {
            assert(old_subs.subrange(0, old_subs.len() as int) =~= old_subs);
        }
        if subs_to_cancel.len() > 0 {
            effects.push(Effect::CancelledSubscriptions(CancelledSubscriptions { for_accounts: subs_to_cancel }));
        }
        self.subscriptions = kept;
        self.active_subscriptions = kept_active;
        proof {
            assert forall|a: int, b: int|
                0 <= a < b < self.subscriptions@.len() implies #[trigger] self.subscriptions@[a].0@ != #[trigger] self.subscriptions@[b].0@ by {
                assert(origin[a] < origin[b]);
                assert(old_subs[origin[a]].0@ != old_subs[origin[b]].0@);
            }
        }
        Ok(effects)
    }
}

} // verus!
