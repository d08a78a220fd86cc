//! Sending by plan: one bearer first, another where it fails.

use crate::domain::{Bearer, SendPlan};
use crate::port::{ModemPort, PortError, PortFault};
use crate::text::owned;
use vstd::prelude::*;

verus! {

/// Outcome of executing a `SendPlan` against a modem.
#[derive(Clone, Copy, Debug, PartialEq, Eq)]
pub struct SendOutcome {
    pub used: Bearer,
    pub fallback_used: bool,
}

/// A plan, carried out: the primary bearer, then the fallback if the primary
/// fails.
pub open spec fn planned<P: ModemPort>(
    model: P::Model,
    primary: Option<Bearer>,
    fallback: Option<Bearer>,
    reason: Seq<char>,
    pdu: Seq<u8>,
) -> (Result<SendOutcome, PortFault>, P::Model) {
    match primary {
        None => (Err(PortFault::PlanUnavailable(reason)), model),
        Some(primary) => {
            let (first, after) = P::sent(model, primary, pdu);
            match first {
                Ok(_) => (Ok(SendOutcome { used: primary, fallback_used: false }), after),
                Err(e) => match fallback {
                    None => (Err(e), after),
                    Some(fallback) => {
                        let (second, last) = P::sent(after, fallback, pdu);
                        match second {
                            Ok(_) => (
                                Ok(SendOutcome { used: fallback, fallback_used: true }),
                                last,
                            ),
                            Err(e) => (Err(e), last),
                        }
                    },
                },
            }
        },
    }
}

/// What a send came to, by what it says.
pub open spec fn send_result(result: Result<SendOutcome, PortError>) -> Result<
    SendOutcome,
    PortFault,
> {
    match result {
        Ok(outcome) => Ok(outcome),
        Err(e) => Err(e@),
    }
}

/// Send on the planned primary bearer, then the fallback if the primary fails.
pub fn send_with_plan<P: ModemPort>(port: &mut P, plan: &SendPlan, pdu: &[u8]) -> (result: Result<
    SendOutcome,
    PortError,
>)
    ensures
        (send_result(result), final(port).model()) == planned::<P>(
            old(port).model(),
            plan.primary,
            plan.fallback,
            plan.reason@,
            pdu@,
        ),
{
    let primary: Bearer = match plan.primary {
        Some(primary) => primary,
        None => return Err(PortError::PlanUnavailable(owned(plan.reason.as_str()))),
    };
    match port.send_on(primary, pdu) {
        Ok(_) => Ok(SendOutcome { used: primary, fallback_used: false }),
        Err(primary_error) => {
            let fallback: Bearer = match plan.fallback {
                Some(fallback) => fallback,
                None => return Err(primary_error),
            };
            match port.send_on(fallback, pdu) {
                Ok(_) => Ok(SendOutcome { used: fallback, fallback_used: true }),
                Err(e) => Err(e),
            }
        },
    }
}

/// A message whose primary bearer took it is not sent again.
pub proof fn law_a_sent_message_is_sent_once<P: ModemPort>(
    model: P::Model,
    primary: Bearer,
    fallback: Option<Bearer>,
    reason: Seq<char>,
    pdu: Seq<u8>,
)
    requires
        P::sent(model, primary, pdu).0 is Ok,
    ensures
        planned::<P>(model, Some(primary), fallback, reason, pdu) == (
            Ok::<SendOutcome, PortFault>(SendOutcome { used: primary, fallback_used: false }),
            P::sent(model, primary, pdu).1,
        ),
{
}

} // verus!
