use vstd::prelude::*;
use vstd::utf8::encode_utf8;

use crate::bytes::copy_bytes;
use crate::errors::ApiError;

verus! {

/// One transaction output as this layer models it: a value and the script
/// bytes that carry the embedded command. Turning the payload into an actual
/// pay-to-script-hash key is the external script library's work.
#[derive(Debug)]
pub struct CommandOutput {
    pub value: u64,
    pub script_public_key: Vec<u8>,
}

/// The framed command payload: a fixed marker, the episode id, a separator,
/// then the command bytes.
pub open spec fn command_payload(episode_id: Seq<char>, data: Seq<u8>) -> Seq<u8> {
    encode_utf8("KDAPP:"@) + encode_utf8(episode_id) + seq![58u8] + data
}

/// Builds the data-only outputs that embed episode commands.
pub struct TransactionBuilder {}

impl TransactionBuilder {
    pub fn new() -> (r: Self) {
        TransactionBuilder {  }
    }

    /// A zero-value, data-only output whose script bytes frame the command.
    pub fn build_command_transaction(&self, episode_id: &str, command_data: Vec<u8>) -> (r: Result<
        CommandOutput,
        ApiError,
    >)
        ensures
            r is Ok,
            r->Ok_0.value == 0,
            r->Ok_0.script_public_key@ == command_payload(episode_id@, command_data@),
    {
        let script = self.create_command_script(episode_id, command_data);
        Ok(CommandOutput { value: 0, script_public_key: script })
    }

    /// Frames an episode command: marker, episode id, separator, command.
    fn create_command_script(&self, episode_id: &str, command_data: Vec<u8>) -> (r: Vec<u8>)
        ensures
            r@ == command_payload(episode_id@, command_data@),
    {
        let mut payload: Vec<u8> = Vec::new();
        payload.extend_from_slice("KDAPP:".as_bytes());
        payload.extend_from_slice(episode_id.as_bytes());
        payload.push(58u8);
        let ghost mid = payload@;
        payload.extend_from_slice(command_data.as_slice());
        proof {
            assert(payload@ =~= command_payload(episode_id@, command_data@));
        }
        payload
    }

    /// The embedded command of the first data-only output, when one exists:
    /// the zero-value output carries it.
    pub fn extract_command(outputs: &Vec<CommandOutput>) -> (r: Option<Vec<u8>>)
        ensures
            r is Some <==> exists|i: int|
                0 <= i < outputs@.len() && (#[trigger] outputs@[i]).value == 0,
            r is Some ==> exists|i: int|
                {
                    &&& 0 <= i < outputs@.len()
                    &&& (#[trigger] outputs@[i]).value == 0
                    &&& forall|k: int| 0 <= k < i ==> (#[trigger] outputs@[k]).value != 0
                    &&& r->0@ == outputs@[i].script_public_key@
                },
    {
        let mut i: usize = 0;
        while i < outputs.len()
            invariant
                i <= outputs@.len(),
                forall|k: int| 0 <= k < i ==> (#[trigger] outputs@[k]).value != 0,
            decreases outputs@.len() - i,
        {
            if outputs[i].value == 0 {
                let script = copy_bytes(&outputs[i].script_public_key);
                proof {
                    assert(outputs@[i as int].value == 0);
                }
                return Some(script);
            }
            i = i + 1;
        }
        None
    }
}

} // verus!
