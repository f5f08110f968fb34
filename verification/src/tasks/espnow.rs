//! ESP-NOW frames: a frame's payload is the same JSON object that the web API
//! takes, and a payload that holds no command is discarded.
use crate::ipc::Command;
use crate::tasks::http::parse_api_body;
use vstd::prelude::*;

verus! {

/// Reads the payload of an ESP-NOW frame into a [`Command`].
pub fn parse_espnow_payload(data: &[u8]) -> (command: Option<Command>)
    ensures
        command == crate::tasks::http::body_command(data@),
        data@.len() == 0 ==> command is None,
{
    parse_api_body(data)
}

/// A payload gives the command that it would give when posted to the web API.
pub proof fn lemma_same_command_as_web(data: Seq<u8>)
    ensures
        crate::tasks::http::accepted_command(
            crate::tasks::http::request_route(
                crate::tasks::http::RequestView {
                    method: crate::tasks::http::Method::Post,
                    path: "/api/command"@,
                    body: data,
                },
            ),
        ) == crate::tasks::http::body_command(data),
{
}

} // verus!
