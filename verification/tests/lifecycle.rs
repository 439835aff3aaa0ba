use bevy_steam_audio::lifecycle::{advance, StreamAction, StreamEvent, StreamPhase};
use bevy_steam_audio::mesh::{MeshData, MeshError};
use bevy_steam_audio::nodes::{order_to_num_channels, FixedProcessBlock};

#[test]
fn engine_is_built_when_the_stream_starts() {
    assert_eq!(
        advance(StreamPhase::Idle, StreamEvent::StreamStarted),
        (StreamPhase::Rebuilding, StreamAction::BuildEngine)
    );
    assert_eq!(
        advance(StreamPhase::Rebuilding, StreamEvent::EngineBuilt),
        (StreamPhase::Running, StreamAction::StartWorker)
    );
}

#[test]
fn running_engine_is_drained_before_it_is_rebuilt() {
    for event in [StreamEvent::StreamStarted, StreamEvent::SettingsChanged] {
        assert_eq!(
            advance(StreamPhase::Running, event),
            (StreamPhase::Draining, StreamAction::CloseWakeChannel)
        );
    }
    // nothing is built while the old worker is alive
    for event in [
        StreamEvent::StreamStarted,
        StreamEvent::SettingsChanged,
        StreamEvent::EngineBuilt,
        StreamEvent::BuildFailed,
    ] {
        assert_eq!(
            advance(StreamPhase::Draining, event),
            (StreamPhase::Draining, StreamAction::Nothing)
        );
    }
    assert_eq!(
        advance(StreamPhase::Draining, StreamEvent::WorkerExited),
        (StreamPhase::Rebuilding, StreamAction::BuildEngine)
    );
}

#[test]
fn failed_build_is_not_tried_again() {
    assert_eq!(
        advance(StreamPhase::Rebuilding, StreamEvent::BuildFailed),
        (StreamPhase::Idle, StreamAction::Nothing)
    );
    for event in [
        StreamEvent::SettingsChanged,
        StreamEvent::WorkerExited,
        StreamEvent::EngineBuilt,
        StreamEvent::BuildFailed,
    ] {
        assert_eq!(
            advance(StreamPhase::Idle, event),
            (StreamPhase::Idle, StreamAction::Nothing)
        );
    }
}

#[test]
fn whole_life_of_an_engine() {
    let events = [
        StreamEvent::StreamStarted,
        StreamEvent::EngineBuilt,
        StreamEvent::SettingsChanged,
        StreamEvent::SettingsChanged,
        StreamEvent::WorkerExited,
        StreamEvent::EngineBuilt,
        StreamEvent::WorkerExited,
    ];
    let mut phase = StreamPhase::Idle;
    let mut actions = Vec::new();
    for event in events {
        let (next, action) = advance(phase, event);
        phase = next;
        actions.push(action);
    }
    assert_eq!(phase, StreamPhase::Running);
    assert_eq!(
        actions,
        vec![
            StreamAction::BuildEngine,
            StreamAction::StartWorker,
            StreamAction::CloseWakeChannel,
            StreamAction::Nothing,
            StreamAction::BuildEngine,
            StreamAction::StartWorker,
            StreamAction::Nothing,
        ]
    );
}

#[test]
fn mesh_defects_in_order() {
    let mesh: MeshData<[f32; 3]> = MeshData {
        triangle_list: false,
        positions: None,
        indices: None,
    };
    assert_eq!(mesh.acoustic_triangles(), Err(MeshError::NotTriangleList));
    let mesh: MeshData<[f32; 3]> = MeshData {
        triangle_list: true,
        positions: None,
        indices: None,
    };
    assert_eq!(mesh.acoustic_triangles(), Err(MeshError::NoPositions));
    let mesh = MeshData {
        triangle_list: true,
        positions: Some(vec![[0.0f32; 3]; 3]),
        indices: None,
    };
    assert_eq!(mesh.acoustic_triangles(), Err(MeshError::NoIndices));
    let mesh = MeshData {
        triangle_list: true,
        positions: Some(vec![[0.0f32; 3]; 3]),
        indices: Some(vec![0, 1, 2, 2, 1, 0]),
    };
    assert_eq!(mesh.acoustic_triangles(), Ok(vec![[0, 1, 2], [2, 1, 0]]));
    assert_eq!(MeshError::NotTriangleList.message(), "Mesh is not a triangle list");
    assert_eq!(MeshError::NoPositions.message(), "Mesh has no position attribute");
    assert_eq!(MeshError::NoIndices.message(), "Mesh has no indices");
}

#[test]
fn channels_of_an_ambisonic_order() {
    assert_eq!(order_to_num_channels(0), 1);
    assert_eq!(order_to_num_channels(1), 4);
    assert_eq!(order_to_num_channels(2), 9);
    assert_eq!(order_to_num_channels(3), 16);
    assert_eq!(order_to_num_channels(65534), 4_294_836_225);
}

#[test]
fn stream_changes_with_rate_or_block_size() {
    let block = FixedProcessBlock::<f32>::new(256, 512, 2, 2, 0.0);
    assert_eq!(block.input_channels(), 2);
    assert_eq!(block.output_channels(), 2);
    assert!(!block.stream_changed(48000, 48000, 512));
    assert!(block.stream_changed(44100, 48000, 512));
    assert!(block.stream_changed(48000, 48000, 1024));
}
