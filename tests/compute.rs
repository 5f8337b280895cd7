use shatter::compute::{pass_commands, Dispatch, DispatchAction, DispatchRun, PassCommand, WorkGroupSize};
use shatter::math::{Vec2, Vec3, Vec4};

#[test]
fn constructors_keep_their_fields() {
    assert_eq!(Dispatch::new(1, 2, 3), Dispatch { x: 1, y: 2, z: 3 });
    assert_eq!(WorkGroupSize::new(8, 8, 1), WorkGroupSize { x: 8, y: 8, z: 1 });
    assert_eq!(Vec2::new(1, 2), Vec2 { x: 1, y: 2 });
    assert_eq!(Vec3::new(1, 2, 3), Vec3 { x: 1, y: 2, z: 3 });
    assert_eq!(Vec4::new(1, 2, 3, 4), Vec4 { x: 1, y: 2, z: 3, w: 4 });
}

#[test]
fn one_dispatch_command_per_triple() {
    let commands = pass_commands(2, &[Dispatch::new(4, 1, 1), Dispatch::new(2, 2, 1)]);
    assert_eq!(
        commands,
        vec![
            PassCommand::SetPipeline,
            PassCommand::SetBindGroup { index: 0 },
            PassCommand::SetBindGroup { index: 1 },
            PassCommand::Dispatch { x: 4, y: 1, z: 1 },
            PassCommand::Dispatch { x: 2, y: 2, z: 1 },
        ]
    );
    assert_eq!(pass_commands(0, &[]), vec![PassCommand::SetPipeline]);
}

#[test]
fn owned_encoder_submits_then_downloads() {
    let mut run = DispatchRun::new(false, true);
    let mut actions = Vec::new();
    for _ in 0..6 {
        actions.push(run.step());
    }
    assert_eq!(
        actions,
        vec![
            DispatchAction::Upload,
            DispatchAction::Resolve { bind_groups: true },
            DispatchAction::Encode,
            DispatchAction::Submit,
            DispatchAction::MarkWritten,
            DispatchAction::Finish,
        ]
    );
}

#[test]
fn external_encoder_stops_after_recording() {
    let mut run = DispatchRun::new(true, false);
    let mut actions = Vec::new();
    for _ in 0..5 {
        actions.push(run.step());
    }
    assert_eq!(
        actions,
        vec![
            DispatchAction::Upload,
            DispatchAction::Resolve { bind_groups: false },
            DispatchAction::Encode,
            DispatchAction::Finish,
            DispatchAction::Finish,
        ]
    );
}
