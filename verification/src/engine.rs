//! The decision: what a policy says of a piece of code in a given month.

use crate::arguments::{arguments_of, parse_arguments, token_views, ArgToken, ArgTokenView};
use crate::date::{date_of, format_date, parse_date, text_of, CalendarMonth};
use crate::policy::{policy_of, Policy, PolicyError, PolicyErrorView, PolicyView};
use crate::target::{item_name, item_name_of, TargetKind, TargetKindView};
use crate::text::mentions;
use vstd::prelude::*;

verus! {

/// What a policy says of a piece of code in a given month.
#[derive(Clone, Debug, PartialEq, Eq)]
pub enum Verdict {
    /// Nothing to report.
    Pass,
    /// The code is past its warning date: it is accepted, with a notice.
    Warn { message: String },
    /// The code is past its expiry date: it is refused.
    Fail { message: String },
}

/// What a [`Verdict`] holds, the message as a sequence of characters.
pub enum VerdictView {
    Pass,
    Warn { message: Seq<char> },
    Fail { message: Seq<char> },
}

impl View for Verdict {
    type V = VerdictView;

    open spec fn view(&self) -> VerdictView {
        match *self {
            Verdict::Pass => VerdictView::Pass,
            Verdict::Warn { message } => VerdictView::Warn { message: message@ },
            Verdict::Fail { message } => VerdictView::Fail { message: message@ },
        }
    }
}

/// What is said of expired code where the policy brings no message.
pub open spec fn expired_message(target: Seq<char>, expiry: CalendarMonth) -> Seq<char> {
    "Code '"@ + target + "' has expired (after "@ + text_of(expiry)
        + "): consider removing this code"@
}

/// What is said of code past its warning date where the policy brings no
/// message.
pub open spec fn warning_message(target: Seq<char>, warning: CalendarMonth) -> Seq<char> {
    "Code '"@ + target + "' past warning date (after "@ + text_of(warning)
        + "): consider updating or removing this code"@
}

/// The verdict of `policy` on the code called `target` in the month
/// `current`. Expiry is looked at first and wins; both comparisons are
/// strict, so the month of a date itself is not yet past it.
pub open spec fn verdict_of(
    policy: PolicyView,
    target: Seq<char>,
    current: CalendarMonth,
) -> VerdictView {
    match policy.expiry_date {
        Some(expiry) if expiry.precedes(current) => VerdictView::Fail {
            message: match policy.message {
                Some(message) => message,
                None => expired_message(target, expiry),
            },
        },
        _ => if policy.warning_date.precedes(current) {
            VerdictView::Warn {
                message: match policy.message {
                    Some(message) => message,
                    None => warning_message(target, policy.warning_date),
                },
            }
        } else {
            VerdictView::Pass
        },
    }
}

/// The month to decide by: the override where one is set, which must then
/// be a date, and else the month of the clock.
pub open spec fn current_date_of(
    date_override: Option<Seq<char>>,
    clock: CalendarMonth,
) -> Result<CalendarMonth, PolicyErrorView> {
    match date_override {
        Some(text) => match date_of(text) {
            Ok(date) => Ok(date),
            Err(reason) => Err(PolicyErrorView::MalformedDate { text, reason }),
        },
        None => Ok(clock),
    }
}

/// In the month of its warning date a valid policy passes: a date is not
/// past in its own month.
pub proof fn lemma_warning_month_passes(policy: PolicyView, target: Seq<char>)
    requires
        policy.is_valid(),
    ensures
        verdict_of(policy, target, policy.warning_date) == VerdictView::Pass,
{
}

/// In the month of its expiry date a valid policy does not fail yet. It
/// warns where the warning date is earlier than the expiry date, and passes
/// where the two are the same month.
pub proof fn lemma_expiry_month_does_not_fail(policy: PolicyView, target: Seq<char>)
    requires
        policy.is_valid(),
        policy.expiry_date is Some,
    ensures
        !(verdict_of(policy, target, policy.expiry_date->0) is Fail),
        policy.warning_date.precedes(policy.expiry_date->0) ==> verdict_of(
            policy,
            target,
            policy.expiry_date->0,
        ) is Warn,
        policy.warning_date == policy.expiry_date->0 ==> verdict_of(
            policy,
            target,
            policy.expiry_date->0,
        ) is Pass,
{
}

/// Past the expiry date the verdict is `Fail`, never `Warn`, wherever the
/// warning date lies.
pub proof fn lemma_expiry_wins(policy: PolicyView, target: Seq<char>, current: CalendarMonth)
    requires
        policy.expiry_date is Some,
        policy.expiry_date->0.precedes(current),
    ensures
        verdict_of(policy, target, current) is Fail,
{
}

/// A policy whose warning date is its expiry date never warns: it passes up
/// to that month and fails after it.
pub proof fn lemma_no_warning_phase(policy: PolicyView, target: Seq<char>, current: CalendarMonth)
    requires
        policy.expiry_date == Some(policy.warning_date),
    ensures
        policy.warning_date.precedes(current) ==> verdict_of(policy, target, current) is Fail,
        !policy.warning_date.precedes(current) ==> verdict_of(policy, target, current) is Pass,
{
}

/// Past the warning date, a policy without expiry date and without message
/// warns in words that mention the target and the warning date as written.
pub proof fn lemma_default_warning_mentions(
    policy: PolicyView,
    target: Seq<char>,
    current: CalendarMonth,
)
    requires
        policy.message is None,
        policy.expiry_date is None,
        policy.warning_date.precedes(current),
    ensures
        verdict_of(policy, target, current) matches VerdictView::Warn { message } && mentions(
            message,
            target,
        ) && mentions(message, text_of(policy.warning_date)),
{
    let date = text_of(policy.warning_date);
    let message = warning_message(target, policy.warning_date);
    let before_target = "Code '"@.len() as int;
    let before_date = before_target + target.len() + "' past warning date (after "@.len();
    assert(message.subrange(before_target, before_target + target.len()) =~= target);
    assert(message.subrange(before_date, before_date + date.len()) =~= date);
}

/// Past the expiry date, a policy without message fails in words that
/// mention the target and the expiry date as written.
pub proof fn lemma_default_failure_mentions(
    policy: PolicyView,
    target: Seq<char>,
    current: CalendarMonth,
)
    requires
        policy.message is None,
        policy.expiry_date is Some,
        policy.expiry_date->0.precedes(current),
    ensures
        verdict_of(policy, target, current) matches VerdictView::Fail { message } && mentions(
            message,
            target,
        ) && mentions(message, text_of(policy.expiry_date->0)),
{
    let date = text_of(policy.expiry_date->0);
    let message = expired_message(target, policy.expiry_date->0);
    let before_target = "Code '"@.len() as int;
    let before_date = before_target + target.len() + "' has expired (after "@.len();
    assert(message.subrange(before_target, before_target + target.len()) =~= target);
    assert(message.subrange(before_date, before_date + date.len()) =~= date);
}

/// The whole decision on one piece of code, from what was written on it.
///
/// The tokens must spell a list of arguments and the arguments make a
/// policy; the override, where one is set, must be a date. Then the policy
/// decides, by the override or else by the clock, on the item's name. The
/// first of these that fails gives the error.
pub open spec fn outcome_of(
    attr: Seq<ArgTokenView>,
    item: TargetKindView,
    date_override: Option<Seq<char>>,
    clock: CalendarMonth,
) -> Result<VerdictView, PolicyErrorView> {
    match arguments_of(attr) {
        Err(position) => Err(PolicyErrorView::MalformedArguments { position }),
        Ok(args) => match policy_of(args) {
            Err(error) => Err(error),
            Ok(policy) => match current_date_of(date_override, clock) {
                Err(error) => Err(error),
                Ok(current) => Ok(verdict_of(policy, item_name_of(item), current)),
            },
        },
    }
}

/// The view of what a decision gave.
pub open spec fn outcome_view(outcome: Result<Verdict, PolicyError>) -> Result<
    VerdictView,
    PolicyErrorView,
> {
    match outcome {
        Ok(verdict) => Ok(verdict@),
        Err(error) => Err(error@),
    }
}

/// The view of an override.
pub open spec fn override_view(date_override: Option<&str>) -> Option<Seq<char>> {
    match date_override {
        Some(text) => Some(text@),
        None => None,
    }
}

fn expired_text(target: &str, expiry: CalendarMonth) -> (message: String)
    ensures
        message@ == expired_message(target@, expiry),
{
    let date = format_date(expiry);
    let mut message = String::new();
    message.append("Code '");
    message.append(target);
    message.append("' has expired (after ");
    message.append(date.as_str());
    message.append("): consider removing this code");
    assert(message@ =~= expired_message(target@, expiry));
    message
}

fn warning_text(target: &str, warning: CalendarMonth) -> (message: String)
    ensures
        message@ == warning_message(target@, warning),
{
    let date = format_date(warning);
    let mut message = String::new();
    message.append("Code '");
    message.append(target);
    message.append("' past warning date (after ");
    message.append(date.as_str());
    message.append("): consider updating or removing this code");
    assert(message@ =~= warning_message(target@, warning));
    message
}

/// Decides what `policy` says of the code called `target_identifier` in
/// the month `current_date`.
pub fn evaluate(policy: &Policy, target_identifier: &str, current_date: CalendarMonth) -> (verdict:
    Verdict)
    ensures
        verdict@ == verdict_of(policy@, target_identifier@, current_date),
{
    if let Some(expiry) = policy.expiry_date {
        if current_date.is_after(&expiry) {
            let message = match &policy.message {
                Some(message) => message.clone(),
                None => expired_text(target_identifier, expiry),
            };
            return Verdict::Fail { message };
        }
    }
    if current_date.is_after(&policy.warning_date) {
        let message = match &policy.message {
            Some(message) => message.clone(),
            None => warning_text(target_identifier, policy.warning_date),
        };
        return Verdict::Warn { message };
    }
    Verdict::Pass
}

/// Picks the month to decide by: `date_override` where it is set, and then
/// it must be a date; else `clock`, the month that the clock shows. An
/// override that is no date is an error and never falls back to the clock.
pub fn current_date(date_override: Option<&str>, clock: CalendarMonth) -> (current: Result<
    CalendarMonth,
    PolicyError,
>)
    ensures
        match current {
            Ok(date) => current_date_of(override_view(date_override), clock) == Ok::<
                CalendarMonth,
                PolicyErrorView,
            >(date),
            Err(error) => current_date_of(override_view(date_override), clock) == Err::<
                CalendarMonth,
                PolicyErrorView,
            >(error@),
        },
{
    match date_override {
        Some(text) => match parse_date(text) {
            Ok(date) => Ok(date),
            Err(reason) => Err(PolicyError::MalformedDate { text: String::from_str(text), reason }),
        },
        None => Ok(clock),
    }
}

/// Decides on the item `item` that carries the attribute arguments `attr`:
/// reads the arguments, builds the policy, picks the month to decide by,
/// `date_override` or else `clock`, and evaluates.
pub fn bestbefore(
    attr: &Vec<ArgToken>,
    item: &TargetKind,
    date_override: Option<&str>,
    clock: CalendarMonth,
) -> (outcome: Result<Verdict, PolicyError>)
    ensures
        outcome_view(outcome) == outcome_of(
            token_views(attr@),
            item@,
            override_view(date_override),
            clock,
        ),
{
    let args = match parse_arguments(attr) {
        Ok(args) => args,
        Err(error) => {
            return Err(PolicyError::MalformedArguments { position: error.position });
        },
    };
    let policy = match Policy::from_arguments(&args) {
        Ok(policy) => policy,
        Err(error) => {
            return Err(error);
        },
    };
    let current = match current_date(date_override, clock) {
        Ok(current) => current,
        Err(error) => {
            return Err(error);
        },
    };
    let name = item_name(item);
    Ok(evaluate(&policy, name.as_str(), current))
}

} // verus!
