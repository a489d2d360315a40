//! Policies: a warning month, an optional expiry month and an optional
//! message, built from the arguments as they were written.

use crate::arguments::{argument_views, RawArgument, RawArgumentView};
use crate::date::{
    date_error_message, date_of, format_date, lemma_dates_read_are_valid, parse_date, text_of,
    CalendarMonth, DateError,
};
use crate::text::{append_decimal, decimal, text_equals};
use vstd::prelude::*;

verus! {

/// When to warn about a piece of code, when to refuse it, and what to say.
#[derive(Clone, Debug, PartialEq, Eq)]
pub struct Policy {
    pub warning_date: CalendarMonth,
    pub expiry_date: Option<CalendarMonth>,
    pub message: Option<String>,
}

/// What a [`Policy`] holds, the message as a sequence of characters.
pub struct PolicyView {
    pub warning_date: CalendarMonth,
    pub expiry_date: Option<CalendarMonth>,
    pub message: Option<Seq<char>>,
}

impl View for Policy {
    type V = PolicyView;

    open spec fn view(&self) -> PolicyView {
        PolicyView {
            warning_date: self.warning_date,
            expiry_date: self.expiry_date,
            message: match self.message {
                Some(text) => Some(text@),
                None => None,
            },
        }
    }
}

impl PolicyView {
    /// Both dates are valid, and the expiry, where there is one, is not
    /// before the warning.
    pub open spec fn is_valid(self) -> bool {
        &&& self.warning_date.is_valid()
        &&& self.expiry_date matches Some(expiry) ==> expiry.is_valid()
            && !expiry.precedes(self.warning_date)
    }
}

/// Why a list of arguments makes no policy.
#[derive(Clone, Debug, PartialEq, Eq)]
pub enum PolicyError {
    /// The tokens are no list of arguments: the one at `position` may not
    /// stand there, or the list ends there inside an argument.
    MalformedArguments { position: usize },
    /// Neither a warning date nor `expires` was given.
    MissingParameters,
    /// The text of a date is not a date.
    MalformedDate { text: String, reason: DateError },
    /// A key that is neither `expires` nor `message`.
    UnknownParameter { key: String },
    /// The argument at `position` is a date that is not the first argument,
    /// or repeats a key.
    DuplicateOrMisplacedArgument { position: usize },
    /// The expiry date is not after the warning date that was given with it.
    InvalidDateOrdering { warning_date: CalendarMonth, expiry_date: CalendarMonth },
}

/// What a [`PolicyError`] holds, texts as sequences of characters.
pub enum PolicyErrorView {
    MalformedArguments { position: int },
    MissingParameters,
    MalformedDate { text: Seq<char>, reason: DateError },
    UnknownParameter { key: Seq<char> },
    DuplicateOrMisplacedArgument { position: int },
    InvalidDateOrdering { warning_date: CalendarMonth, expiry_date: CalendarMonth },
}

impl View for PolicyError {
    type V = PolicyErrorView;

    open spec fn view(&self) -> PolicyErrorView {
        match *self {
            PolicyError::MalformedArguments {
                position,
            } => PolicyErrorView::MalformedArguments { position: position as int },
            PolicyError::MissingParameters => PolicyErrorView::MissingParameters,
            PolicyError::MalformedDate { text, reason } => PolicyErrorView::MalformedDate {
                text: text@,
                reason,
            },
            PolicyError::UnknownParameter { key } => PolicyErrorView::UnknownParameter {
                key: key@,
            },
            PolicyError::DuplicateOrMisplacedArgument {
                position,
            } => PolicyErrorView::DuplicateOrMisplacedArgument { position: position as int },
            PolicyError::InvalidDateOrdering {
                warning_date,
                expiry_date,
            } => PolicyErrorView::InvalidDateOrdering { warning_date, expiry_date },
        }
    }
}

/// What is said of a list of arguments that makes no policy.
pub open spec fn error_message(error: PolicyErrorView) -> Seq<char> {
    match error {
        PolicyErrorView::MalformedArguments { position } => "Malformed arguments at token "@
            + decimal(position as nat),
        PolicyErrorView::MissingParameters =>
            "Missing parameters. You must provide either a warning date or an expires parameter"@,
        PolicyErrorView::MalformedDate { text, reason } => date_error_message(text, reason),
        PolicyErrorView::UnknownParameter { key } => "Unknown parameter '"@ + key
            + "', expected 'expires' or 'message'"@,
        PolicyErrorView::DuplicateOrMisplacedArgument { position } =>
            "Duplicate or misplaced argument at place "@ + decimal(position as nat),
        PolicyErrorView::InvalidDateOrdering { warning_date, expiry_date } =>
            "Invalid date: expiration date ("@ + text_of(expiry_date)
                + ") must be after warning date ("@ + text_of(warning_date) + ")"@,
    }
}

impl PolicyError {
    /// The diagnosis in words, with the offending text or place in it.
    pub fn message(&self) -> (message: String)
        ensures
            message@ == error_message(self@),
    {
        let mut message = String::new();
        match self {
            PolicyError::MalformedArguments { position } => {
                message.append("Malformed arguments at token ");
                append_decimal(&mut message, *position as u64);
            },
            PolicyError::MissingParameters => {
                message.append(
                    "Missing parameters. You must provide either a warning date or an expires parameter",
                );
            },
            PolicyError::MalformedDate { text, reason } => {
                return reason.message(text.as_str());
            },
            PolicyError::UnknownParameter { key } => {
                message.append("Unknown parameter '");
                message.append(key.as_str());
                message.append("', expected 'expires' or 'message'");
            },
            PolicyError::DuplicateOrMisplacedArgument { position } => {
                message.append("Duplicate or misplaced argument at place ");
                append_decimal(&mut message, *position as u64);
            },
            PolicyError::InvalidDateOrdering { warning_date, expiry_date } => {
                let warning = format_date(*warning_date);
                let expiry = format_date(*expiry_date);
                message.append("Invalid date: expiration date (");
                message.append(expiry.as_str());
                message.append(") must be after warning date (");
                message.append(warning.as_str());
                message.append(")");
            },
        }
        assert(message@ =~= error_message(self@));
        message
    }
}

/// The view of what building a policy gave.
pub open spec fn built_view(built: Result<Policy, PolicyError>) -> Result<
    PolicyView,
    PolicyErrorView,
> {
    match built {
        Ok(policy) => Ok(policy@),
        Err(error) => Err(error@),
    }
}

/// The key under which the expiry date is given.
pub open spec fn expires_key() -> Seq<char> {
    "expires"@
}

/// The key under which the message is given.
pub open spec fn message_key() -> Seq<char> {
    "message"@
}

/// The argument at `i` is a value under the key `key`.
pub open spec fn is_named(args: Seq<RawArgumentView>, i: int, key: Seq<char>) -> bool {
    &&& 0 <= i < args.len()
    &&& args[i] matches RawArgumentView::Named { key: k, .. }
    &&& k == key
}

/// An argument before `i` is a value under the key `key`.
pub open spec fn named_before(args: Seq<RawArgumentView>, i: int, key: Seq<char>) -> bool {
    exists|j: int| 0 <= j < i && is_named(args, j, key)
}

/// What is wrong with the argument at `i`, given those before it:
/// a date that is not the first argument or is no date; a key that is
/// unknown, or known and already used; an `expires` that is no date.
pub open spec fn fault_at(args: Seq<RawArgumentView>, i: int) -> Option<PolicyErrorView> {
    match args[i] {
        RawArgumentView::Positional(text) => if i != 0 {
            Some(PolicyErrorView::DuplicateOrMisplacedArgument { position: i })
        } else {
            match date_of(text) {
                Err(reason) => Some(PolicyErrorView::MalformedDate { text, reason }),
                Ok(_) => None,
            }
        },
        RawArgumentView::Named { key, value } => if key != expires_key() && key != message_key() {
            Some(PolicyErrorView::UnknownParameter { key })
        } else if named_before(args, i, key) {
            Some(PolicyErrorView::DuplicateOrMisplacedArgument { position: i })
        } else if key == expires_key() {
            match date_of(value) {
                Err(reason) => Some(PolicyErrorView::MalformedDate { text: value, reason }),
                Ok(_) => None,
            }
        } else {
            None
        },
    }
}

/// The argument at `i` is the first with a fault.
pub open spec fn is_first_fault(args: Seq<RawArgumentView>, i: int) -> bool {
    &&& 0 <= i < args.len()
    &&& fault_at(args, i) is Some
    &&& forall|j: int| 0 <= j < i ==> fault_at(args, j) is None
}

/// The value given under `key`, where an argument has that key.
pub open spec fn named_value(args: Seq<RawArgumentView>, key: Seq<char>) -> Option<Seq<char>> {
    if exists|i: int| is_named(args, i, key) {
        Some(args[choose|i: int| is_named(args, i, key)]->value)
    } else {
        None
    }
}

/// The date that the first argument gives on its own.
pub open spec fn positional_date(args: Seq<RawArgumentView>) -> Option<CalendarMonth> {
    if args.len() > 0 && args[0] is Positional {
        match date_of(args[0]->0) {
            Ok(date) => Some(date),
            Err(_) => None,
        }
    } else {
        None
    }
}

/// The date given under `expires`.
pub open spec fn expires_date(args: Seq<RawArgumentView>) -> Option<CalendarMonth> {
    match named_value(args, expires_key()) {
        Some(text) => match date_of(text) {
            Ok(date) => Some(date),
            Err(_) => None,
        },
        None => None,
    }
}

/// The policy that a list of arguments makes, or why it makes none.
///
/// The first argument with a fault decides the error. Without a fault,
/// dates are needed: with `expires` alone the warning date is the expiry
/// date; with a warning date and `expires`, the expiry must be later.
pub open spec fn policy_of(args: Seq<RawArgumentView>) -> Result<PolicyView, PolicyErrorView> {
    if exists|i: int| is_first_fault(args, i) {
        Err(fault_at(args, choose|i: int| is_first_fault(args, i))->0)
    } else {
        let message = named_value(args, message_key());
        match (positional_date(args), expires_date(args)) {
            (None, None) => Err(PolicyErrorView::MissingParameters),
            (None, Some(expiry)) => Ok(
                PolicyView { warning_date: expiry, expiry_date: Some(expiry), message },
            ),
            (Some(warning), None) => Ok(
                PolicyView { warning_date: warning, expiry_date: None, message },
            ),
            (Some(warning), Some(expiry)) => if warning.precedes(expiry) {
                Ok(PolicyView { warning_date: warning, expiry_date: Some(expiry), message })
            } else {
                Err(
                    PolicyErrorView::InvalidDateOrdering {
                        warning_date: warning,
                        expiry_date: expiry,
                    },
                )
            },
        }
    }
}

/// The first argument with a fault decides what the list makes.
pub proof fn lemma_first_fault_decides(args: Seq<RawArgumentView>, i: int)
    requires
        is_first_fault(args, i),
    ensures
        policy_of(args) == Err::<PolicyView, PolicyErrorView>(fault_at(args, i)->0),
{
    let k = choose|k: int| is_first_fault(args, k);
    assert(k == i) by {
        if k < i {
            assert(fault_at(args, k) is None);
        } else if i < k {
            assert(fault_at(args, i) is None);
        }
    }
}

/// In a list without faults a known key is used at most once, so the value
/// under it is the one that the argument with that key gives.
pub proof fn lemma_named_once(args: Seq<RawArgumentView>, i: int, key: Seq<char>)
    requires
        forall|j: int| 0 <= j < args.len() ==> fault_at(args, j) is None,
        is_named(args, i, key),
    ensures
        named_value(args, key) == Some(args[i]->value),
{
    let k = choose|k: int| is_named(args, k, key);
    assert(k == i) by {
        if k < i {
            assert(named_before(args, i, key));
            assert(fault_at(args, i) is None);
        } else if i < k {
            assert(named_before(args, k, key));
            assert(fault_at(args, k) is None);
        }
    }
}

/// Every policy that a list of arguments makes is valid.
pub proof fn lemma_policies_made_are_valid(args: Seq<RawArgumentView>)
    ensures
        policy_of(args) matches Ok(policy) ==> policy.is_valid(),
{
    if args.len() > 0 && args[0] is Positional {
        lemma_dates_read_are_valid(args[0]->0);
    }
    if named_value(args, expires_key()) is Some {
        lemma_dates_read_are_valid(named_value(args, expires_key())->0);
    }
}

/// `expires` alone makes a policy: its warning date is the expiry date.
pub proof fn lemma_expires_alone_is_accepted(expires: Seq<char>, date: CalendarMonth)
    requires
        date_of(expires) == Ok::<CalendarMonth, DateError>(date),
    ensures
        policy_of(seq![RawArgumentView::Named { key: expires_key(), value: expires }]) == Ok::<
            PolicyView,
            PolicyErrorView,
        >(PolicyView { warning_date: date, expiry_date: Some(date), message: None }),
{
    let args = seq![RawArgumentView::Named { key: expires_key(), value: expires }];
    assert(!named_before(args, 0, expires_key()));
    assert forall|i: int| 0 <= i < args.len() implies fault_at(args, i) is None by {}
    lemma_named_once(args, 0, expires_key());
    assert(!(exists|i: int| is_named(args, i, message_key()))) by {
        reveal_strlit("expires");
        reveal_strlit("message");
        assert(expires_key()[0] != message_key()[0]);
    }
}

/// A warning date given with an `expires` that is not later is refused,
/// also where the two are the same month.
pub proof fn lemma_expiry_must_follow_warning(
    warning: Seq<char>,
    expires: Seq<char>,
    warning_date: CalendarMonth,
    expiry_date: CalendarMonth,
)
    requires
        date_of(warning) == Ok::<CalendarMonth, DateError>(warning_date),
        date_of(expires) == Ok::<CalendarMonth, DateError>(expiry_date),
        !warning_date.precedes(expiry_date),
    ensures
        policy_of(
            seq![
                RawArgumentView::Positional(warning),
                RawArgumentView::Named { key: expires_key(), value: expires },
            ],
        ) == Err::<PolicyView, PolicyErrorView>(
            PolicyErrorView::InvalidDateOrdering { warning_date, expiry_date },
        ),
{
    let args = seq![
        RawArgumentView::Positional(warning),
        RawArgumentView::Named { key: expires_key(), value: expires },
    ];
    assert(!named_before(args, 1, expires_key()));
    assert forall|i: int| 0 <= i < args.len() implies fault_at(args, i) is None by {}
    lemma_named_once(args, 1, expires_key());
}

impl Policy {
    /// Builds the policy that `args` make: at most one date on its own, in
    /// the first place, then `expires` and `message`, each at most once and
    /// in any order. A repeated key is refused, not overridden.
    pub fn from_arguments(args: &Vec<RawArgument>) -> (built: Result<Policy, PolicyError>)
        ensures
            built_view(built) == policy_of(argument_views(args@)),
            built matches Ok(policy) ==> policy@.is_valid(),
    {
        let ghost views = argument_views(args@);
        let mut warning: Option<CalendarMonth> = None;
        let mut expiry: Option<CalendarMonth> = None;
        let mut message: Option<String> = None;
        let ghost mut expiry_at: int = 0;
        let ghost mut message_at: int = 0;
        let mut i: usize = 0;
        while i < args.len()
            invariant
                i <= args.len(),
                views == argument_views(args@),
                forall|j: int| 0 <= j < i ==> fault_at(views, j) is None,
                warning == (if i > 0 {
                    positional_date(views)
                } else {
                    None
                }),
                match expiry {
                    Some(date) => is_named(views, expiry_at, expires_key()) && expiry_at < i
                        && date_of(views[expiry_at]->value) == Ok::<CalendarMonth, DateError>(
                        date,
                    ),
                    None => !named_before(views, i as int, expires_key()),
                },
                match message {
                    Some(text) => is_named(views, message_at, message_key()) && message_at < i
                        && views[message_at]->value == text@,
                    None => !named_before(views, i as int, message_key()),
                },
            decreases args.len() - i,
        {
            assert(views[i as int] == args@[i as int]@);
            match &args[i] {
                RawArgument::Positional(text) => {
                    if i != 0 {
                        proof {
                            lemma_first_fault_decides(views, i as int);
                        }
                        return Err(PolicyError::DuplicateOrMisplacedArgument { position: i });
                    }
                    match parse_date(text.as_str()) {
                        Ok(date) => {
                            warning = Some(date);
                        },
                        Err(reason) => {
                            proof {
                                lemma_first_fault_decides(views, i as int);
                            }
                            return Err(PolicyError::MalformedDate { text: text.clone(), reason });
                        },
                    }
                },
                RawArgument::Named { key, value } => {
                    if text_equals(key.as_str(), "expires") {
                        if expiry.is_some() {
                            proof {
                                assert(named_before(views, i as int, expires_key()));
                                lemma_first_fault_decides(views, i as int);
                            }
                            return Err(PolicyError::DuplicateOrMisplacedArgument { position: i });
                        }
                        match parse_date(value.as_str()) {
                            Ok(date) => {
                                expiry = Some(date);
                                proof {
                                    expiry_at = i as int;
                                }
                            },
                            Err(reason) => {
                                proof {
                                    lemma_first_fault_decides(views, i as int);
                                }
                                return Err(
                                    PolicyError::MalformedDate { text: value.clone(), reason },
                                );
                            },
                        }
                        assert(!named_before(views, i + 1, message_key()) <== !named_before(
                            views,
                            i as int,
                            message_key(),
                        )) by {
                            reveal_strlit("expires");
                            reveal_strlit("message");
                            assert(expires_key()[0] != message_key()[0]);
                        }
                    } else if text_equals(key.as_str(), "message") {
                        if message.is_some() {
                            proof {
                                assert(named_before(views, i as int, message_key()));
                                lemma_first_fault_decides(views, i as int);
                            }
                            return Err(PolicyError::DuplicateOrMisplacedArgument { position: i });
                        }
                        message = Some(value.clone());
                        proof {
                            message_at = i as int;
                        }
                    } else {
                        proof {
                            lemma_first_fault_decides(views, i as int);
                        }
                        return Err(PolicyError::UnknownParameter { key: key.clone() });
                    }
                },
            }
            i += 1;
        }
        proof {
            lemma_policies_made_are_valid(views);
            assert forall|k: int| !is_first_fault(views, k) by {}
            if expiry is Some {
                lemma_named_once(views, expiry_at, expires_key());
            }
            if message is Some {
                lemma_named_once(views, message_at, message_key());
            }
        }
        let warning_date = match (warning, expiry) {
            (None, None) => {
                return Err(PolicyError::MissingParameters);
            },
            (None, Some(expiry_date)) => expiry_date,
            (Some(warning_date), None) => warning_date,
            (Some(warning_date), Some(expiry_date)) => {
                if !expiry_date.is_after(&warning_date) {
                    return Err(PolicyError::InvalidDateOrdering { warning_date, expiry_date });
                }
                warning_date
            },
        };
        Ok(Policy { warning_date, expiry_date: expiry, message })
    }
}

} // verus!
