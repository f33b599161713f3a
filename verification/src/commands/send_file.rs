//! Sending a file to every known peer, one block per quantum.

use crate::action::{duration_of_millis, Outcome, OutcomeView, Processing, Request, Step, StepView};
use crate::commands::{ActionRequest, ActionRequestView, CommandError};
use crate::message::{Chunk, ChunkView, NetMessage, NetMessageView};
use crate::state::{State, StateView, SystemMessageType};
use std::time::Duration;
use vstd::prelude::*;
use vstd::string::*;

verus! {

/// Size of the blocks in which a file is read and sent.
pub const CHUNK_SIZE: usize = 65500;

/// The command that sends a file: `send <path>`.
#[derive(Clone, Copy, Debug, PartialEq, Eq, Structural)]
pub struct SendFileCommand;

impl SendFileCommand {
    /// The verb of the command.
    pub fn name(&self) -> (name: &'static str)
        ensures
            name@ == "send"@,
    {
        "send"
    }

    /// What the command asks for: the file named by the first parameter.
    pub open spec fn parsed(params: Seq<Seq<char>>) -> Result<ActionRequestView, CommandError> {
        if params.len() > 0 {
            Ok(ActionRequestView::SendFile(params[0]))
        } else {
            Err(CommandError::NoFileSpecified)
        }
    }

    /// Reads the parameters: the first names the file, the others are ignored.
    pub fn parse_params(&self, params: Vec<String>) -> (request: Result<
        ActionRequest,
        CommandError,
    >)
        ensures
            match request {
                Ok(request) => Self::parsed(params.deep_view()) == Ok::<
                    ActionRequestView,
                    CommandError,
                >(request@),
                Err(e) => Self::parsed(params.deep_view()) == Err::<
                    ActionRequestView,
                    CommandError,
                >(e),
            },
    {
        if params.len() > 0 {
            Ok(ActionRequest::SendFile(params[0].clone()))
        } else {
            Err(CommandError::NoFileSpecified)
        }
    }
}

/// A file on its way to the peers.
#[derive(Debug, PartialEq, Eq)]
pub struct SendFile {
    /// Name under which the peers store the file.
    pub file_name: String,
    /// Size of the file in bytes.
    pub file_size: u64,
    /// Id of the transfer in the session state, once it is logged.
    pub progress_id: Option<usize>,
}

/// Mathematical model of a [`SendFile`].
pub struct SendFileView {
    pub file_name: Seq<char>,
    pub file_size: u64,
    pub progress_id: Option<usize>,
}

impl View for SendFile {
    type V = SendFileView;

    open spec fn view(&self) -> SendFileView {
        SendFileView {
            file_name: self.file_name@,
            file_size: self.file_size,
            progress_id: self.progress_id,
        }
    }
}

impl SendFileView {
    /// The id under which the transfer is, or will be, known to the state.
    pub open spec fn transfer_id(self, state: StateView) -> usize {
        match self.progress_id {
            Some(id) => id,
            None => state.transfers.len() as usize,
        }
    }

    /// Whether the next quantum can account for the bytes of `outcome`
    /// without overflow.
    pub open spec fn can_process(self, state: StateView, outcome: OutcomeView) -> bool {
        match (self.progress_id, outcome) {
            (Some(id), OutcomeView::Data(data)) => state.can_progress(id, data.len() as u64),
            _ => true,
        }
    }

    /// The chunk that tells the peers of `outcome`: the block read, the end
    /// of the file where nothing was left to read, or the failure.
    pub open spec fn chunk_of(outcome: OutcomeView) -> ChunkView {
        match outcome {
            OutcomeView::Data(data) => if data.len() == 0 {
                ChunkView::End
            } else {
                ChunkView::Data(data)
            },
            OutcomeView::Failed(_) => ChunkView::Error,
        }
    }

    /// The session state after a quantum: the transfer is logged if it was
    /// not yet, a failure is reported, and the bytes read are accounted for.
    pub open spec fn state_after(
        self,
        state: StateView,
        outcome: OutcomeView,
        stamps: StateView,
    ) -> StateView {
        let opened = if self.progress_id is None {
            state.with_transfer(stamps, self.file_name, self.file_size)
        } else {
            state
        };
        match outcome {
            OutcomeView::Data(data) => opened.with_progress(
                self.transfer_id(state),
                data.len() as u64,
            ),
            OutcomeView::Failed(error) => opened.reporting(
                stamps,
                "Error sending file. error: "@ + error,
                SystemMessageType::Error,
            ).with_progress(self.transfer_id(state), 0),
        }
    }

    /// The action after a quantum: it knows the id of its transfer.
    pub open spec fn after(self, state: StateView) -> SendFileView {
        SendFileView { progress_id: Some(self.transfer_id(state)), ..self }
    }

    /// What a quantum decides: the chunk goes to the peers, and the action
    /// is resumed as long as the read gave something.
    pub open spec fn step_of(self, outcome: OutcomeView) -> StepView {
        StepView {
            processing: if outcome matches OutcomeView::Data(data) && data.len() > 0 {
                Processing::Partial(duration_of_millis(0))
            } else {
                Processing::Completed
            },
            broadcast: Some(NetMessageView::UserData(self.file_name, Self::chunk_of(outcome))),
        }
    }
}

impl SendFile {
    /// A transfer that has not begun, of a file of the given name and size.
    pub fn new(file_name: String, file_size: u64) -> (action: SendFile)
        ensures
            action@ == (SendFileView { file_name: file_name@, file_size, progress_id: None }),
    {
        SendFile { file_name, file_size, progress_id: None }
    }

    /// The outside work that the next quantum needs: the next block of the
    /// file.
    pub fn request(&self) -> (request: Request)
        ensures
            request == Request::ReadBlock(CHUNK_SIZE),
    {
        Request::ReadBlock(CHUNK_SIZE)
    }

    /// Tells whether [`SendFileView::can_process`] holds.
    pub fn check_process(&self, state: &State, outcome: &Outcome) -> (ok: bool)
        requires
            state.wf(),
        ensures
            ok == self@.can_process(state@, outcome@),
    {
        match (&self.progress_id, outcome) {
            (Some(id), Outcome::Data(data)) => match state.progress_state(*id) {
                Some(progress) => progress.check_advance(data.len() as u64),
                None => true,
            },
            _ => true,
        }
    }

    /// Sends the block that was read and accounts for it. A read of nothing
    /// ends the transfer; a failed read is reported and ends it too.
    pub fn process(&mut self, state: &mut State, outcome: Outcome) -> (step: Step)
        requires
            old(state).wf(),
            old(self)@.can_process(old(state)@, outcome@),
        ensures
            final(state).wf(),
            final(state)@ == old(self)@.state_after(old(state)@, outcome@, final(state)@),
            final(self)@ == old(self)@.after(old(state)@),
            step@ == old(self)@.step_of(outcome@),
    {
        let id = match self.progress_id {
            Some(id) => id,
            None => {
                let id = state.add_progress_message(self.file_name.as_str(), self.file_size);
                self.progress_id = Some(id);
                id
            },
        };
        let (bytes_read, chunk, processing) = match outcome {
            Outcome::Data(data) => {
                if data.len() == 0 {
                    (0, Chunk::End, Processing::Completed)
                } else {
                    (
                        data.len() as u64,
                        Chunk::Data(data),
                        Processing::Partial(Duration::from_millis(0)),
                    )
                }
            },
            Outcome::Failed(error) => {
                let mut msg = "Error sending file. error: ".to_owned();
                msg.append(error.as_str());
                state.add_system_error_message(msg);
                (0, Chunk::Error, Processing::Completed)
            },
        };
        state.progress_message_update(id, bytes_read);
        proof {
            let expected = old(self)@.state_after(old(state)@, outcome@, state@);
            assert(state@.log =~= expected.log);
            assert(state@.transfers =~= expected.transfers);
        }
        Step {
            processing,
            broadcast: Some(NetMessage::UserData(self.file_name.clone(), chunk)),
        }
    }
}


/// The sizes of the reads that a file of `len` bytes gives when it is read
/// in blocks of `block` bytes: full blocks, then what is left, then nothing.
pub open spec fn reads_of(len: nat, block: nat) -> Seq<nat>
    decreases len,
{
    if len == 0 || block == 0 {
        seq![0nat]
    } else if len <= block {
        seq![len, 0nat]
    } else {
        seq![block] + reads_of((len - block) as nat, block)
    }
}

/// A quantum ends the transfer exactly when its read gave nothing; it then
/// tells the peers of the end of the file, and else sends them what was read.
pub proof fn lemma_step_follows_the_read(action: SendFileView, data: Seq<u8>)
    ensures
        action.step_of(OutcomeView::Data(data)).processing is Completed <==> data.len() == 0,
        action.step_of(OutcomeView::Data(data)).broadcast == Some(
            NetMessageView::UserData(
                action.file_name,
                if data.len() == 0 {
                    ChunkView::End
                } else {
                    ChunkView::Data(data)
                },
            ),
        ),
{
}

/// A file of `k` full blocks and `r` more bytes, `r` above zero and below a
/// block, takes `k + 2` quanta: one for each full block, one for the rest
/// and one for the end of the file. Only the last read gives nothing.
pub proof fn lemma_quanta_of_a_file(k: nat, r: nat, block: nat)
    requires
        0 < r < block,
    ensures
        reads_of(k * block + r, block).len() == k + 2,
        forall|i: int| 0 <= i < k ==> #[trigger] reads_of(k * block + r, block)[i] == block,
        reads_of(k * block + r, block)[k as int] == r,
        reads_of(k * block + r, block)[(k + 1) as int] == 0,
    decreases k,
{
    if k == 0 {
        assert(0 * block + r == r) by (nonlinear_arith);
    } else {
        let len = k * block + r;
        let rest = (k - 1) * block + r;
        assert(len == block + rest) by (nonlinear_arith)
            requires
                len == k * block + r,
                rest == (k - 1) * block + r,
                k >= 1,
        ;
        assert(rest >= r) by (nonlinear_arith)
            requires
                rest == (k - 1) * block + r,
                k >= 1,
                block > 0,
        ;
        lemma_quanta_of_a_file((k - 1) as nat, r, block);
        let tail = reads_of(rest as nat, block);
        assert(reads_of(len, block) =~= seq![block] + tail);
        assert forall|i: int| 0 <= i < k implies #[trigger] reads_of(len, block)[i] == block by {
            if i > 0 {
                assert(reads_of(len, block)[i] == tail[i - 1]);
            }
        }
        assert(reads_of(len, block)[k as int] == tail[k - 1]);
        assert(reads_of(len, block)[(k + 1) as int] == tail[k as int]);
    }
}

/// A file of `k` full blocks and nothing more takes `k + 1` quanta: one
/// for each block and one for the end of the file.
pub proof fn lemma_quanta_of_whole_blocks(k: nat, block: nat)
    requires
        block > 0,
    ensures
        k > 0 ==> reads_of(k * block, block).len() == k + 1,
        k == 0 ==> reads_of(k * block, block) == seq![0nat],
    decreases k,
{
    if k == 0 {
        assert(0 * block == 0) by (nonlinear_arith);
    } else if k == 1 {
        assert(1 * block == block) by (nonlinear_arith);
    } else {
        let len = k * block;
        let rest = (k - 1) * block;
        assert(len == block + rest && rest >= block) by (nonlinear_arith)
            requires
                len == k * block,
                rest == (k - 1) * block,
                k >= 2,
                block > 0,
        ;
        lemma_quanta_of_whole_blocks((k - 1) as nat, block);
        assert(reads_of(len, block) =~= seq![block] + reads_of(rest as nat, block));
    }
}

} // verus!
