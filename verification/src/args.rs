//! What the operator supplied on the command line, once it is parsed, and
//! what the session takes from it.

use crate::engine::{credentials_view, ConfigError, CredentialsView, SMPPCredentials, SMS};
use vstd::prelude::*;

verus! {

/// The parsed command line: the five options that every run needs, and the
/// message of the `send-sms` subcommand where that was the subcommand given.
#[derive(Debug, Clone, PartialEq, Eq)]
pub struct Arguments {
    pub provider_name: String,
    pub endpoint_addr: String,
    pub system_id: String,
    pub password: String,
    pub system_type: String,
    pub send_sms: Option<SMS>,
}

/// The credentials that the command line gives, or the fault of the first
/// of system identifier, password and system type that cannot be sent.
pub fn credentials(args: &Arguments) -> (r: Result<SMPPCredentials, ConfigError>)
    ensures
        credentials_view(r) == CredentialsView::checked(
            args.provider_name@,
            args.endpoint_addr@,
            args.system_id@,
            args.password@,
            args.system_type@,
        ),
        r is Ok ==> r->Ok_0@.wf(),
{
    SMPPCredentials::new(
        args.provider_name.clone(),
        args.endpoint_addr.clone(),
        args.system_id.as_str(),
        args.password.as_str(),
        args.system_type.as_str(),
    )
}

/// The one message that the command line asks to send.
pub fn smsoneshot(args: &Arguments) -> (sms: SMS)
    requires
        args.send_sms is Some,
    ensures
        sms@ == args.send_sms->0@,
{
    match &args.send_sms {
        Some(given) => SMS::from(given.src.clone(), given.dst.clone(), given.content.clone()),
        None => vstd::pervasive::unreached(),
    }
}

} // verus!
