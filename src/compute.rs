use vstd::prelude::*;

verus! {

/// The number of workgroups launched along each axis by one dispatch.
#[derive(Clone, Copy, Debug, Default, PartialEq, Eq, Hash, Structural)]
pub struct Dispatch {
    pub x: u32,
    pub y: u32,
    pub z: u32,
}

impl Dispatch {
    pub fn new(x: u32, y: u32, z: u32) -> (r: Self)
        ensures
            r == (Dispatch { x, y, z }),
    {
        Dispatch { x, y, z }
    }
}

/// The extent of one workgroup, fixed by the shader. It is not enforced
/// here: callers divide the size of their problem by it to build a
/// `Dispatch`.
#[derive(Clone, Copy, Debug, Default, PartialEq, Eq, Hash, Structural)]
pub struct WorkGroupSize {
    pub x: u32,
    pub y: u32,
    pub z: u32,
}

impl WorkGroupSize {
    pub fn new(x: u32, y: u32, z: u32) -> (r: Self)
        ensures
            r == (WorkGroupSize { x, y, z }),
    {
        WorkGroupSize { x, y, z }
    }
}

/// One command recorded into a compute pass.
#[derive(Clone, Copy, Debug, PartialEq, Eq, Structural)]
pub enum PassCommand {
    SetPipeline,
    SetBindGroup { index: u32 },
    Dispatch { x: u32, y: u32, z: u32 },
}

/// The commands of one compute pass: the pipeline, then each bind group at
/// its group index, then one dispatch per requested triple, in order.
pub open spec fn pass_commands_spec(groups: nat, dispatches: Seq<Dispatch>) -> Seq<PassCommand> {
    seq![PassCommand::SetPipeline] + Seq::new(
        groups,
        |i: int| PassCommand::SetBindGroup { index: i as u32 },
    ) + dispatches.map_values(
        |d: Dispatch| PassCommand::Dispatch { x: d.x, y: d.y, z: d.z },
    )
}

/// The commands that record `dispatches` with `groups` bind groups bound.
pub fn pass_commands(groups: u32, dispatches: &[Dispatch]) -> (r: Vec<PassCommand>)
    ensures
        r@ == pass_commands_spec(groups as nat, dispatches@),
{
    let mut r: Vec<PassCommand> = Vec::new();
    r.push(PassCommand::SetPipeline);
    let mut i: u32 = 0;
    while i < groups
        invariant
            i <= groups,
            r@ == seq![PassCommand::SetPipeline] + Seq::new(
                i as nat,
                |j: int| PassCommand::SetBindGroup { index: j as u32 },
            ),
        decreases groups - i,
    {
        r.push(PassCommand::SetBindGroup { index: i });
        i = i + 1;
        assert(r@ =~= seq![PassCommand::SetPipeline] + Seq::new(
            i as nat,
            |j: int| PassCommand::SetBindGroup { index: j as u32 },
        ));
    }
    let ghost prefix = r@;
    let mut k: usize = 0;
    while k < dispatches.len()
        invariant
            k <= dispatches@.len(),
            r@ == prefix + dispatches@.subrange(0, k as int).map_values(
                |d: Dispatch| PassCommand::Dispatch { x: d.x, y: d.y, z: d.z },
            ),
        decreases dispatches@.len() - k,
    {
        let d = dispatches[k];
        r.push(PassCommand::Dispatch { x: d.x, y: d.y, z: d.z });
        k = k + 1;
        assert(r@ =~= prefix + dispatches@.subrange(0, k as int).map_values(
            |d: Dispatch| PassCommand::Dispatch { x: d.x, y: d.y, z: d.z },
        ));
    }
    assert(dispatches@.subrange(0, dispatches@.len() as int) =~= dispatches@);
    r
}

/// Where a dispatch stands.
#[derive(Clone, Copy, Debug, PartialEq, Eq, Structural)]
pub enum DispatchPhase {
    Idle,
    Prepared,
    Resolved,
    Encoded,
    Submitted,
    Synced,
}

/// What the caller of a dispatch does next.
#[derive(Clone, Copy, Debug, PartialEq, Eq, Structural)]
pub enum DispatchAction {
    /// Upload every binding, making each device object large enough.
    Upload,
    /// Resolve the pipeline layout, shader module and pipeline, and, where
    /// `bind_groups` is set, the bind group layouts and bind groups first.
    Resolve { bind_groups: bool },
    /// Record the pass commands.
    Encode,
    /// Submit the recorded commands.
    Submit,
    /// Mark every binding that the shader writes as needing a download; the
    /// download itself happens on the next access.
    MarkWritten,
    /// Nothing is left to do.
    Finish,
}

/// The next phase and action of a dispatch in `phase`. With a command
/// encoder of the caller's, recording ends the dispatch: submitting it and
/// downloading are the caller's. With no bindings, nothing about bind groups
/// is resolved.
pub open spec fn dispatch_step(phase: DispatchPhase, external_encoder: bool, has_bindings: bool) -> (
    DispatchPhase,
    DispatchAction,
) {
    match phase {
        DispatchPhase::Idle => (DispatchPhase::Prepared, DispatchAction::Upload),
        DispatchPhase::Prepared => (
            DispatchPhase::Resolved,
            DispatchAction::Resolve { bind_groups: has_bindings },
        ),
        DispatchPhase::Resolved => (DispatchPhase::Encoded, DispatchAction::Encode),
        DispatchPhase::Encoded => if external_encoder {
            (DispatchPhase::Encoded, DispatchAction::Finish)
        } else {
            (DispatchPhase::Submitted, DispatchAction::Submit)
        },
        DispatchPhase::Submitted => (DispatchPhase::Synced, DispatchAction::MarkWritten),
        DispatchPhase::Synced => (DispatchPhase::Synced, DispatchAction::Finish),
    }
}

/// The progress of one dispatch.
pub struct DispatchRun {
    pub phase: DispatchPhase,
    pub external_encoder: bool,
    pub has_bindings: bool,
}

impl DispatchRun {
    pub fn new(external_encoder: bool, has_bindings: bool) -> (r: Self)
        ensures
            r.phase == DispatchPhase::Idle,
            r.external_encoder == external_encoder,
            r.has_bindings == has_bindings,
    {
        DispatchRun { phase: DispatchPhase::Idle, external_encoder, has_bindings }
    }

    /// Moves to the next phase and says what to do there.
    pub fn step(&mut self) -> (r: DispatchAction)
        ensures
            final(self).external_encoder == old(self).external_encoder,
            final(self).has_bindings == old(self).has_bindings,
            (final(self).phase, r) == dispatch_step(
                old(self).phase,
                old(self).external_encoder,
                old(self).has_bindings,
            ),
    {
        let (phase, action) = match self.phase {
            DispatchPhase::Idle => (DispatchPhase::Prepared, DispatchAction::Upload),
            DispatchPhase::Prepared => (
                DispatchPhase::Resolved,
                DispatchAction::Resolve { bind_groups: self.has_bindings },
            ),
            DispatchPhase::Resolved => (DispatchPhase::Encoded, DispatchAction::Encode),
            DispatchPhase::Encoded => if self.external_encoder {
                (DispatchPhase::Encoded, DispatchAction::Finish)
            } else {
                (DispatchPhase::Submitted, DispatchAction::Submit)
            },
            DispatchPhase::Submitted => (DispatchPhase::Synced, DispatchAction::MarkWritten),
            DispatchPhase::Synced => (DispatchPhase::Synced, DispatchAction::Finish),
        };
        self.phase = phase;
        action
    }
}

/// The actions of the first `n` steps of a dispatch that starts in `phase`.
pub open spec fn dispatch_actions(
    phase: DispatchPhase,
    external_encoder: bool,
    has_bindings: bool,
    n: nat,
) -> Seq<DispatchAction>
    decreases n,
{
    if n == 0 {
        Seq::empty()
    } else {
        let (next, action) = dispatch_step(phase, external_encoder, has_bindings);
        seq![action] + dispatch_actions(next, external_encoder, has_bindings, (n - 1) as nat)
    }
}

/// A dispatch that owns its encoder uploads, resolves, records, submits and
/// then marks the written bindings, in that order, and is then done; one
/// recording into the caller's encoder stops after recording, submitting
/// nothing and leaving the bindings to the caller.
pub proof fn lemma_dispatch_sequence(has_bindings: bool)
    ensures
        dispatch_actions(DispatchPhase::Idle, false, has_bindings, 6) == seq![
            DispatchAction::Upload,
            DispatchAction::Resolve { bind_groups: has_bindings },
            DispatchAction::Encode,
            DispatchAction::Submit,
            DispatchAction::MarkWritten,
            DispatchAction::Finish,
        ],
        dispatch_actions(DispatchPhase::Idle, true, has_bindings, 4) == seq![
            DispatchAction::Upload,
            DispatchAction::Resolve { bind_groups: has_bindings },
            DispatchAction::Encode,
            DispatchAction::Finish,
        ],
{
    reveal_with_fuel(dispatch_actions, 7);
    assert(dispatch_actions(DispatchPhase::Idle, false, has_bindings, 6) =~= seq![
        DispatchAction::Upload,
        DispatchAction::Resolve { bind_groups: has_bindings },
        DispatchAction::Encode,
        DispatchAction::Submit,
        DispatchAction::MarkWritten,
        DispatchAction::Finish,
    ]);
    assert(dispatch_actions(DispatchPhase::Idle, true, has_bindings, 4) =~= seq![
        DispatchAction::Upload,
        DispatchAction::Resolve { bind_groups: has_bindings },
        DispatchAction::Encode,
        DispatchAction::Finish,
    ]);
}

} // verus!
