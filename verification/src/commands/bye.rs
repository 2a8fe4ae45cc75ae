//! The BYE command: a header-only message; no payload beyond the
//! identifier is consumed by the core.

use vstd::prelude::*;

use crate::errors::ProtocolError;

verus! {

/// A decoded BYE command.
#[derive(Debug)]
pub struct ByeCommand {
    pub id: String,
}

impl ByeCommand {
    /// Creates a ByeCommand. The command is header-only, so no byte of
    /// the payload is consumed and creation always succeeds.
    pub fn from_client_message(_data: &[u8]) -> (r: Result<ByeCommand, ProtocolError>)
        ensures
            r is Ok,
            r matches Ok(cmd) ==> cmd.id@ == "BYYE"@,
    {
        let created = ByeCommand { id: "BYYE".to_owned() };
        Ok(created)
    }
}

} // verus!
