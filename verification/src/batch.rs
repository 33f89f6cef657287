//! The per-batch orchestrator: holds the two plugin template buffers and
//! the mod-level identifier encodings, applies every video's substitutions
//! and timing patches, and hands out the files to be written. Plugin
//! buffers accumulate the whole batch; each video gets fresh mesh buffers.
use vstd::prelude::*;
use vstd::slice::slice_to_vec;
use crate::codec::{elongate, pad_spec, LengthError};
use crate::patch::FILL_X;
use crate::timing::RescaledTimes;
use crate::pipeline::MAX_NAME_LEN;
use crate::assemble::{
    MeshRole,
    mesh_path,
    mesh_path_spec,
    primary_plugin_path,
    primary_plugin_path_spec,
    drivein_plugin_path,
    drivein_plugin_path_spec,
    patch_plugin,
    patch_plugin_spec,
    patch_plugin_names_spec,
    patch_mesh,
    patch_mesh_spec,
};

verus! {

/// What the external video frame-grid encoder reports for one video: how
/// many grids its frames occupy, where playback stops within the final
/// occupied grid (as a 32-bit float bit pattern), and the name of the
/// audio asset it produced.
pub struct VideoOutcome {
    pub grid_amount: u32,
    pub stop_time_bits: u32,
    pub audio_name: Vec<u8>,
}

/// One video's line of a generated editor script.
pub struct ScriptEntry {
    pub video_token: Vec<u8>,
    pub video_name: Vec<u8>,
    pub audio_name: Vec<u8>,
    pub compact: bool,
}

/// A file the caller must write: its path and its bytes.
pub struct OutputFile {
    pub path: Vec<u8>,
    pub contents: Vec<u8>,
}

/// The five bundled mesh template buffers, selected per video by how many
/// grids it occupies.
pub struct MeshTemplates {
    pub tv_compact: Vec<u8>,
    pub tv_large: Vec<u8>,
    pub pr_compact: Vec<u8>,
    pub pr_large: Vec<u8>,
    pub di_compact: Vec<u8>,
}

/// The data a generated editor script is built from.
pub struct ScriptData {
    pub mod_name: Vec<u8>,
    pub mod_token: Vec<u8>,
    pub entries: Vec<ScriptEntry>,
}

/// What a finished batch hands back: plugin files to write, or the data
/// for an editor script instead.
pub enum BatchResult {
    Plugins(Vec<OutputFile>),
    Script(ScriptData),
}

/// A video occupying at most eight grids uses the compact template family
/// and qualifies the batch for the compact-secondary plugin file.
pub const COMPACT_GRID_LIMIT: u32 = 8;

/// One invocation's accumulated state: the mod name with its three
/// fixed-width encodings, the two plugin buffers under mutation, and the
/// per-video script entries when a script is generated instead.
pub struct Batch {
    pub mod_name: Vec<u8>,
    pub mod_token: Vec<u8>,
    pub mod_leading: Vec<u8>,
    pub mod_trailing: Vec<u8>,
    pub tv_esp: Vec<u8>,
    pub di_esp: Vec<u8>,
    pub generate_script: bool,
    pub write_drivein: bool,
    pub script_entries: Vec<ScriptEntry>,
}

impl Batch {
    /// The three encodings belong to the mod name and the name fits a token.
    pub open spec fn wf(self) -> bool {
        &&& self.mod_name@.len() <= MAX_NAME_LEN
        &&& self.mod_token@ == pad_spec(self.mod_name@, FILL_X, MAX_NAME_LEN as int, true)
        &&& self.mod_leading@ == pad_spec(self.mod_name@, 32, MAX_NAME_LEN as int, true)
        &&& self.mod_trailing@ == pad_spec(self.mod_name@, 32, MAX_NAME_LEN as int, false)
    }

    /// Starts a batch: checks that the mod name fits a token, derives its
    /// three fixed-width encodings once, and takes ownership of the two
    /// plugin template buffers.
    pub fn new(mod_name: Vec<u8>, tv_esp: Vec<u8>, di_esp: Vec<u8>, generate_script: bool)
        -> (result: Result<Batch, LengthError>)
        ensures
            result is Err <==> mod_name@.len() > MAX_NAME_LEN,
            result matches Ok(batch) ==> {
                &&& batch.wf()
                &&& batch.mod_name@ == mod_name@
                &&& batch.tv_esp@ == tv_esp@
                &&& batch.di_esp@ == di_esp@
                &&& batch.generate_script == generate_script
                &&& !batch.write_drivein
                &&& batch.script_entries@.len() == 0
            },
    {
        let mod_token = match elongate(mod_name.as_slice(), FILL_X, MAX_NAME_LEN, true) {
            Ok(v) => v,
            Err(e) => {
                return Err(e);
            },
        };
        let mod_leading = match elongate(mod_name.as_slice(), 32, MAX_NAME_LEN, true) {
            Ok(v) => v,
            Err(e) => {
                proof {
                    assert(false);
                }
                return Err(e);
            },
        };
        let mod_trailing = match elongate(mod_name.as_slice(), 32, MAX_NAME_LEN, false) {
            Ok(v) => v,
            Err(e) => {
                proof {
                    assert(false);
                }
                return Err(e);
            },
        };
        Ok(
            Batch {
                mod_name,
                mod_token,
                mod_leading,
                mod_trailing,
                tv_esp,
                di_esp,
                generate_script,
                write_drivein: false,
                script_entries: Vec::new(),
            },
        )
    }

    /// Folds one video into the batch. The video's tokens are derived; in
    /// script mode a script entry is recorded, otherwise the plugin
    /// buffer(s) in scope take the video's substitutions — the compact
    /// secondary one only when the video occupies at most eight grids.
    /// Returns the video's mesh files, built from the template family its
    /// grid count selects, each fully patched. Fails when the video name
    /// does not fit its token (nothing is changed then), or when the audio
    /// asset name does not fit its token (the primary plugin buffer then
    /// keeps the name substitutions already applied, as the caller aborts
    /// the batch).
    pub fn add_video(
        &mut self,
        video_name: &Vec<u8>,
        outcome: &VideoOutcome,
        frame_rate: u32,
        times: &RescaledTimes,
        templates: &MeshTemplates,
    ) -> (result: Result<Vec<OutputFile>, LengthError>)
        requires
            old(self).wf(),
            1 <= outcome.grid_amount <= 24,
        ensures
            final(self).wf(),
            final(self).mod_name@ == old(self).mod_name@,
            final(self).mod_token@ == old(self).mod_token@,
            final(self).mod_leading@ == old(self).mod_leading@,
            final(self).mod_trailing@ == old(self).mod_trailing@,
            final(self).generate_script == old(self).generate_script,
            final(self).tv_esp@.len() == old(self).tv_esp@.len(),
            final(self).di_esp@.len() == old(self).di_esp@.len(),
            result is Err <==> (video_name@.len() > MAX_NAME_LEN || (!old(self).generate_script
                && outcome.audio_name@.len() > 14)),
            video_name@.len() > MAX_NAME_LEN ==> *final(self) == *old(self),
            ({
                let compact = outcome.grid_amount <= COMPACT_GRID_LIMIT;
                let vid_token = pad_spec(video_name@, FILL_X, MAX_NAME_LEN as int, true);
                let vid_trailing = pad_spec(video_name@, 32, MAX_NAME_LEN as int, false);
                &&& (video_name@.len() <= MAX_NAME_LEN ==> final(self).write_drivein == (
                old(self).write_drivein || compact))
                &&& (result is Err && video_name@.len() <= MAX_NAME_LEN ==> {
                    &&& final(self).tv_esp@ == patch_plugin_names_spec(
                        old(self).tv_esp@,
                        old(self).mod_token@,
                        old(self).mod_leading@,
                        old(self).mod_trailing@,
                        vid_token,
                        vid_trailing,
                    )
                    &&& final(self).di_esp@ == old(self).di_esp@
                    &&& final(self).script_entries@ == old(self).script_entries@
                })
                &&& (result is Ok ==> {
                    &&& (old(self).generate_script ==> {
                        &&& final(self).tv_esp@ == old(self).tv_esp@
                        &&& final(self).di_esp@ == old(self).di_esp@
                        &&& final(self).script_entries@.len() == old(self).script_entries@.len()
                            + 1
                        &&& forall|k: int|
                            0 <= k < old(self).script_entries@.len()
                                ==> final(self).script_entries@[k] == old(self).script_entries@[k]
                        &&& final(self).script_entries@.last().video_token@ == vid_token
                        &&& final(self).script_entries@.last().video_name@ == video_name@
                        &&& final(self).script_entries@.last().audio_name@
                            == outcome.audio_name@
                        &&& final(self).script_entries@.last().compact == compact
                    })
                    &&& (!old(self).generate_script ==> {
                        &&& final(self).tv_esp@ == patch_plugin_spec(
                            old(self).tv_esp@,
                            old(self).mod_token@,
                            old(self).mod_leading@,
                            old(self).mod_trailing@,
                            vid_token,
                            vid_trailing,
                            outcome.audio_name@,
                        )
                        &&& final(self).di_esp@ == if compact {
                            patch_plugin_spec(
                                old(self).di_esp@,
                                old(self).mod_token@,
                                old(self).mod_leading@,
                                old(self).mod_trailing@,
                                vid_token,
                                vid_trailing,
                                outcome.audio_name@,
                            )
                        } else {
                            old(self).di_esp@
                        }
                        &&& final(self).script_entries@ == old(self).script_entries@
                    })
                })
            }),
            result matches Ok(files) ==> ({
                let compact = outcome.grid_amount <= COMPACT_GRID_LIMIT;
                let vid_token = pad_spec(video_name@, FILL_X, MAX_NAME_LEN as int, true);
                &&& files@.len() == if compact {
                    3int
                } else {
                    2int
                }
                &&& files@[0].path@ == mesh_path_spec(
                    MeshRole::Television,
                    old(self).mod_token@,
                    vid_token,
                )
                &&& files@[0].contents@ == patch_mesh_spec(
                    if compact {
                        templates.tv_compact@
                    } else {
                        templates.tv_large@
                    },
                    vid_token,
                    old(self).mod_token@,
                    outcome.grid_amount as int,
                    outcome.stop_time_bits,
                    frame_rate,
                    *times,
                )
                &&& files@[1].path@ == mesh_path_spec(
                    MeshRole::Projector,
                    old(self).mod_token@,
                    vid_token,
                )
                &&& files@[1].contents@ == patch_mesh_spec(
                    if compact {
                        templates.pr_compact@
                    } else {
                        templates.pr_large@
                    },
                    vid_token,
                    old(self).mod_token@,
                    outcome.grid_amount as int,
                    outcome.stop_time_bits,
                    frame_rate,
                    *times,
                )
                &&& compact ==> {
                    &&& files@[2].path@ == mesh_path_spec(
                        MeshRole::DriveIn,
                        old(self).mod_token@,
                        vid_token,
                    )
                    &&& files@[2].contents@ == patch_mesh_spec(
                        templates.di_compact@,
                        vid_token,
                        old(self).mod_token@,
                        outcome.grid_amount as int,
                        outcome.stop_time_bits,
                        frame_rate,
                        *times,
                    )
                }
            }),
    {
        let vid_token = match elongate(video_name.as_slice(), FILL_X, MAX_NAME_LEN, true) {
            Ok(v) => v,
            Err(e) => {
                return Err(e);
            },
        };
        let vid_trailing = match elongate(video_name.as_slice(), 32, MAX_NAME_LEN, false) {
            Ok(v) => v,
            Err(e) => {
                proof {
                    assert(false);
                }
                return Err(e);
            },
        };
        let compact = outcome.grid_amount <= COMPACT_GRID_LIMIT;
        if compact {
            self.write_drivein = true;
        }
        if self.generate_script {
            let entry = ScriptEntry {
                video_token: slice_to_vec(vid_token.as_slice()),
                video_name: slice_to_vec(video_name.as_slice()),
                audio_name: slice_to_vec(outcome.audio_name.as_slice()),
                compact,
            };
            self.script_entries.push(entry);
        } else {
            match patch_plugin(
                &mut self.tv_esp,
                &self.mod_token,
                &self.mod_leading,
                &self.mod_trailing,
                &vid_token,
                &vid_trailing,
                &outcome.audio_name,
            ) {
                Ok(_) => (),
                Err(e) => {
                    return Err(e);
                },
            }
            if compact {
                match patch_plugin(
                    &mut self.di_esp,
                    &self.mod_token,
                    &self.mod_leading,
                    &self.mod_trailing,
                    &vid_token,
                    &vid_trailing,
                    &outcome.audio_name,
                ) {
                    Ok(_) => (),
                    Err(e) => {
                        proof {
                            assert(false);
                        }
                        return Err(e);
                    },
                }
            }
        }
        let mut files: Vec<OutputFile> = Vec::new();
        let mut tv_mesh = if compact {
            slice_to_vec(templates.tv_compact.as_slice())
        } else {
            slice_to_vec(templates.tv_large.as_slice())
        };
        patch_mesh(
            &mut tv_mesh,
            &vid_token,
            &self.mod_token,
            outcome.grid_amount,
            outcome.stop_time_bits,
            frame_rate,
            times,
        );
        files.push(
            OutputFile {
                path: mesh_path(&MeshRole::Television, &self.mod_token, &vid_token),
                contents: tv_mesh,
            },
        );
        let mut pr_mesh = if compact {
            slice_to_vec(templates.pr_compact.as_slice())
        } else {
            slice_to_vec(templates.pr_large.as_slice())
        };
        patch_mesh(
            &mut pr_mesh,
            &vid_token,
            &self.mod_token,
            outcome.grid_amount,
            outcome.stop_time_bits,
            frame_rate,
            times,
        );
        files.push(
            OutputFile {
                path: mesh_path(&MeshRole::Projector, &self.mod_token, &vid_token),
                contents: pr_mesh,
            },
        );
        if compact {
            let mut di_mesh = slice_to_vec(templates.di_compact.as_slice());
            patch_mesh(
                &mut di_mesh,
                &vid_token,
                &self.mod_token,
                outcome.grid_amount,
                outcome.stop_time_bits,
                frame_rate,
                times,
            );
            files.push(
                OutputFile {
                    path: mesh_path(&MeshRole::DriveIn, &self.mod_token, &vid_token),
                    contents: di_mesh,
                },
            );
        }
        Ok(files)
    }

    /// Ends the batch: in script mode, the per-video script data; in the
    /// normal mode, the primary plugin file and — when at least one video
    /// qualified for the compact family — the secondary one.
    pub fn finish(self) -> (r: BatchResult)
        ensures
            self.generate_script ==> (r matches BatchResult::Script(d) && {
                &&& d.mod_name@ == self.mod_name@
                &&& d.mod_token@ == self.mod_token@
                &&& d.entries@ == self.script_entries@
            }),
            !self.generate_script ==> (r matches BatchResult::Plugins(files) && {
                &&& files@.len() == if self.write_drivein {
                    2int
                } else {
                    1int
                }
                &&& files@[0].path@ == primary_plugin_path_spec(self.mod_name@)
                &&& files@[0].contents@ == self.tv_esp@
                &&& self.write_drivein ==> files@[1].path@ == drivein_plugin_path_spec(
                    self.mod_name@,
                ) && files@[1].contents@ == self.di_esp@
            }),
    {
        if self.generate_script {
            BatchResult::Script(
                ScriptData {
                    mod_name: self.mod_name,
                    mod_token: self.mod_token,
                    entries: self.script_entries,
                },
            )
        } else {
            let mut files: Vec<OutputFile> = Vec::new();
            let primary_path = primary_plugin_path(&self.mod_name);
            let drivein_path = drivein_plugin_path(&self.mod_name);
            files.push(OutputFile { path: primary_path, contents: self.tv_esp });
            if self.write_drivein {
                files.push(OutputFile { path: drivein_path, contents: self.di_esp });
            }
            BatchResult::Plugins(files)
        }
    }
}

} // verus!
