use autovideo::assemble::{drivein_plugin_path, mesh_path, primary_plugin_path, MeshRole};
use autovideo::batch::{Batch, BatchResult, MeshTemplates, VideoOutcome};
use autovideo::patch::count_strings_in_bytes;
use autovideo::timing::RescaledTimes;

fn plugin_template() -> Vec<u8> {
    b"hdr AUTOCIDENT AUTOVIDENT AUTOSIDENT AUTOPIDENT AUTOTIDENT AUTOMIDENT ZAUTONIDEN AUTOIDENTSOUND end"
        .to_vec()
}

fn mesh_template() -> Vec<u8> {
    let mut m = b"nif AUTOCIDENT AUTOMIDENT ".to_vec();
    m.extend_from_slice(&121201f32.to_le_bytes());
    m.extend_from_slice(&141401f32.to_le_bytes());
    m.extend_from_slice(&1313f32.to_le_bytes());
    m
}

fn templates() -> MeshTemplates {
    MeshTemplates {
        tv_compact: mesh_template(),
        tv_large: mesh_template(),
        pr_compact: mesh_template(),
        pr_large: mesh_template(),
        di_compact: mesh_template(),
    }
}

fn rescaled(stop_time: f32, frame_rate: u32) -> RescaledTimes {
    RescaledTimes {
        full_rescaled_bits: (25.6f32 / frame_rate as f32 * 10f32).to_bits(),
        stop_rescaled_bits: (stop_time / frame_rate as f32 * 10f32).to_bits(),
        speed_bits: (frame_rate as f32 / 10f32).to_bits(),
    }
}

fn outcome(grid_amount: u32, stop: f32, audio: &[u8]) -> VideoOutcome {
    VideoOutcome {
        grid_amount,
        stop_time_bits: stop.to_bits(),
        audio_name: audio.to_vec(),
    }
}

#[test]
fn batch_of_three_compact_videos_writes_both_plugins_and_nine_meshes() {
    let mut batch =
        Batch::new(b"MyMod".to_vec(), plugin_template(), plugin_template(), false).unwrap();
    let times = rescaled(12.0, 10);
    let mut mesh_files = Vec::new();
    for name in [b"Clip1".as_slice(), b"Clip2", b"Clip3"] {
        let files = batch
            .add_video(&name.to_vec(), &outcome(4, 12.0, b"SoundA"), 10, &times, &templates())
            .unwrap();
        assert_eq!(files.len(), 3);
        mesh_files.extend(files);
    }
    assert_eq!(mesh_files.len(), 9);
    assert_eq!(
        mesh_files[0].path,
        b"output/meshes/Videos/Television/XXXXXMyMod/XXXXXClip1.nif".to_vec()
    );
    assert_eq!(
        mesh_files[1].path,
        b"output/meshes/Videos/Projector/XXXXXMyMod/XXXXXClip1.nif".to_vec()
    );
    assert_eq!(
        mesh_files[2].path,
        b"output/meshes/Videos/DriveIn/XXXXXMyMod/XXXXXClip1.nif".to_vec()
    );
    // the mesh buffers carry the video and mod identifiers, no tokens left
    for f in &mesh_files {
        assert_eq!(count_strings_in_bytes(&f.contents, b"AUTOCIDENT"), 0);
        assert_eq!(count_strings_in_bytes(&f.contents, b"AUTOMIDENT"), 0);
        assert_eq!(count_strings_in_bytes(&f.contents, b"XXXXXMyMod"), 1);
    }
    match batch.finish() {
        BatchResult::Plugins(files) => {
            assert_eq!(files.len(), 2);
            assert_eq!(files[0].path, b"output/VotW_MyMod.esp".to_vec());
            assert_eq!(files[1].path, b"output/VotW_MyMod_DriveIn.esp".to_vec());
            for f in &files {
                assert_eq!(count_strings_in_bytes(&f.contents, b"AUTOCIDENT"), 0);
                // the first video of the batch took all three first-match
                // video token slots of the template
                assert_eq!(count_strings_in_bytes(&f.contents, b"XXXXXClip1"), 3);
                assert_eq!(count_strings_in_bytes(&f.contents, b"XXXXXXXXSoundA"), 1);
            }
        }
        BatchResult::Script(_) => panic!("expected plugin files"),
    }
}

#[test]
fn large_grid_video_skips_the_drivein_family() {
    let mut batch =
        Batch::new(b"MyMod".to_vec(), plugin_template(), plugin_template(), false).unwrap();
    let times = rescaled(40.0, 10);
    let files = batch
        .add_video(&b"Long1".to_vec(), &outcome(12, 40.0, b"S"), 10, &times, &templates())
        .unwrap();
    assert_eq!(files.len(), 2);
    match batch.finish() {
        BatchResult::Plugins(files) => {
            assert_eq!(files.len(), 1);
            assert_eq!(files[0].path, b"output/VotW_MyMod.esp".to_vec());
        }
        BatchResult::Script(_) => panic!("expected plugin files"),
    }
}

#[test]
fn script_mode_records_entries_and_leaves_plugins_untouched() {
    let tv = plugin_template();
    let mut batch = Batch::new(b"MyMod".to_vec(), tv.clone(), plugin_template(), true).unwrap();
    let times = rescaled(5.0, 10);
    let files = batch
        .add_video(&b"Clip1".to_vec(), &outcome(2, 5.0, b"SoundA"), 10, &times, &templates())
        .unwrap();
    assert_eq!(files.len(), 3);
    assert_eq!(batch.tv_esp, tv);
    match batch.finish() {
        BatchResult::Script(data) => {
            assert_eq!(data.mod_name, b"MyMod".to_vec());
            assert_eq!(data.mod_token, b"XXXXXMyMod".to_vec());
            assert_eq!(data.entries.len(), 1);
            assert_eq!(data.entries[0].video_token, b"XXXXXClip1".to_vec());
            assert_eq!(data.entries[0].video_name, b"Clip1".to_vec());
            assert_eq!(data.entries[0].audio_name, b"SoundA".to_vec());
            assert!(data.entries[0].compact);
        }
        BatchResult::Plugins(_) => panic!("expected script data"),
    }
}

#[test]
fn overlong_mod_name_refused() {
    assert!(Batch::new(b"VideoMod123".to_vec(), plugin_template(), plugin_template(), false)
        .is_err());
}

#[test]
fn overlong_video_name_refused() {
    let mut batch =
        Batch::new(b"MyMod".to_vec(), plugin_template(), plugin_template(), false).unwrap();
    let times = rescaled(5.0, 10);
    assert!(batch
        .add_video(&b"elevenchars".to_vec(), &outcome(2, 5.0, b"S"), 10, &times, &templates())
        .is_err());
}

#[test]
fn overlong_audio_name_refused() {
    let mut batch =
        Batch::new(b"MyMod".to_vec(), plugin_template(), plugin_template(), false).unwrap();
    let times = rescaled(5.0, 10);
    assert!(batch
        .add_video(
            &b"Clip1".to_vec(),
            &outcome(2, 5.0, b"fifteen__chars_"),
            10,
            &times,
            &templates()
        )
        .is_err());
}

#[test]
fn plugin_buffers_accumulate_over_the_batch() {
    // two AUTOVIDENT-style slots: each video consumes the first free one
    let tv = b"AUTOVIDENT AUTOVIDENT".to_vec();
    let di = b"AUTOVIDENT AUTOVIDENT".to_vec();
    let mut batch = Batch::new(b"M".to_vec(), tv, di, false).unwrap();
    let times = rescaled(5.0, 10);
    batch
        .add_video(&b"Clip1".to_vec(), &outcome(2, 5.0, b"S"), 10, &times, &templates())
        .unwrap();
    batch
        .add_video(&b"Clip2".to_vec(), &outcome(2, 5.0, b"S"), 10, &times, &templates())
        .unwrap();
    assert_eq!(batch.tv_esp, b"XXXXXClip1 XXXXXClip2".to_vec());
}

#[test]
fn output_paths() {
    assert_eq!(primary_plugin_path(&b"MyMod".to_vec()), b"output/VotW_MyMod.esp".to_vec());
    assert_eq!(
        drivein_plugin_path(&b"MyMod".to_vec()),
        b"output/VotW_MyMod_DriveIn.esp".to_vec()
    );
    assert_eq!(
        mesh_path(&MeshRole::Television, &b"XXXXXMyMod".to_vec(), &b"XXXXXClip1".to_vec()),
        b"output/meshes/Videos/Television/XXXXXMyMod/XXXXXClip1.nif".to_vec()
    );
}
