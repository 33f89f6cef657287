//! Asset assembly: the fixed placeholder tokens, the output file layout,
//! and the per-video application of identifier substitutions and timing
//! patches to plugin and mesh template buffers.
use vstd::prelude::*;
use crate::codec::{elongate, pad_spec, push_all, lemma_pad_exact_len, LengthError};
use crate::patch::{
    replace_all_strings_in_bytes,
    replace_first_string_in_bytes,
    rep_all_from,
    replace_first_spec,
    FILL_X,
};
use crate::timing::{patch_grid_timings, patch_timings_spec, RescaledTimes};
use crate::pipeline::MAX_NAME_LEN;

verus! {

/// Bytes of `"AUTOCIDENT"`: the mod identifier token replaced everywhere in plugin buffers, and by the video identifier in mesh buffers.
pub open spec fn tok_autocident() -> Seq<u8> {
    seq![65u8, 85, 84, 79, 67, 73, 68, 69, 78, 84]
}

/// Bytes of `"AUTOCIDENT"`.
pub fn token_autocident() -> (t: [u8; 10])
    ensures
        t@ == tok_autocident(),
{
    let t: [u8; 10] = [65, 85, 84, 79, 67, 73, 68, 69, 78, 84];
    proof {
        assert(t@ =~= tok_autocident());
    }
    t
}

/// Bytes of `"AUTOVIDENT"`: a first-occurrence video identifier token.
pub open spec fn tok_autovident() -> Seq<u8> {
    seq![65u8, 85, 84, 79, 86, 73, 68, 69, 78, 84]
}

/// Bytes of `"AUTOVIDENT"`.
pub fn token_autovident() -> (t: [u8; 10])
    ensures
        t@ == tok_autovident(),
{
    let t: [u8; 10] = [65, 85, 84, 79, 86, 73, 68, 69, 78, 84];
    proof {
        assert(t@ =~= tok_autovident());
    }
    t
}

/// Bytes of `"AUTOSIDENT"`: a first-occurrence video identifier token.
pub open spec fn tok_autosident() -> Seq<u8> {
    seq![65u8, 85, 84, 79, 83, 73, 68, 69, 78, 84]
}

/// Bytes of `"AUTOSIDENT"`.
pub fn token_autosident() -> (t: [u8; 10])
    ensures
        t@ == tok_autosident(),
{
    let t: [u8; 10] = [65, 85, 84, 79, 83, 73, 68, 69, 78, 84];
    proof {
        assert(t@ =~= tok_autosident());
    }
    t
}

/// Bytes of `"AUTOPIDENT"`: a first-occurrence video identifier token.
pub open spec fn tok_autopident() -> Seq<u8> {
    seq![65u8, 85, 84, 79, 80, 73, 68, 69, 78, 84]
}

/// Bytes of `"AUTOPIDENT"`.
pub fn token_autopident() -> (t: [u8; 10])
    ensures
        t@ == tok_autopident(),
{
    let t: [u8; 10] = [65, 85, 84, 79, 80, 73, 68, 69, 78, 84];
    proof {
        assert(t@ =~= tok_autopident());
    }
    t
}

/// Bytes of `"AUTOTIDENT"`: the trailing-space mod name token.
pub open spec fn tok_autotident() -> Seq<u8> {
    seq![65u8, 85, 84, 79, 84, 73, 68, 69, 78, 84]
}

/// Bytes of `"AUTOTIDENT"`.
pub fn token_autotident() -> (t: [u8; 10])
    ensures
        t@ == tok_autotident(),
{
    let t: [u8; 10] = [65, 85, 84, 79, 84, 73, 68, 69, 78, 84];
    proof {
        assert(t@ =~= tok_autotident());
    }
    t
}

/// Bytes of `"AUTOMIDENT"`: the leading-space mod name token in plugin buffers, and the mod identifier token in mesh buffers.
pub open spec fn tok_automident() -> Seq<u8> {
    seq![65u8, 85, 84, 79, 77, 73, 68, 69, 78, 84]
}

/// Bytes of `"AUTOMIDENT"`.
pub fn token_automident() -> (t: [u8; 10])
    ensures
        t@ == tok_automident(),
{
    let t: [u8; 10] = [65, 85, 84, 79, 77, 73, 68, 69, 78, 84];
    proof {
        assert(t@ =~= tok_automident());
    }
    t
}

/// Bytes of `"ZAUTONIDEN"`: the first-occurrence trailing-space video name token.
pub open spec fn tok_zautoniden() -> Seq<u8> {
    seq![90u8, 65, 85, 84, 79, 78, 73, 68, 69, 78]
}

/// Bytes of `"ZAUTONIDEN"`.
pub fn token_zautoniden() -> (t: [u8; 10])
    ensures
        t@ == tok_zautoniden(),
{
    let t: [u8; 10] = [90, 65, 85, 84, 79, 78, 73, 68, 69, 78];
    proof {
        assert(t@ =~= tok_zautoniden());
    }
    t
}

/// Bytes of `"AUTOIDENTSOUND"`: the first-occurrence audio asset name token.
pub open spec fn tok_autoidentsound() -> Seq<u8> {
    seq![65u8, 85, 84, 79, 73, 68, 69, 78, 84, 83, 79, 85, 78, 68]
}

/// Bytes of `"AUTOIDENTSOUND"`.
pub fn token_autoidentsound() -> (t: [u8; 14])
    ensures
        t@ == tok_autoidentsound(),
{
    let t: [u8; 14] = [65, 85, 84, 79, 73, 68, 69, 78, 84, 83, 79, 85, 78, 68];
    proof {
        assert(t@ =~= tok_autoidentsound());
    }
    t
}

/// Bytes of `"output/VotW_"`: prefix of both plugin file paths.
pub open spec fn tok_out_votw() -> Seq<u8> {
    seq![111u8, 117, 116, 112, 117, 116, 47, 86, 111, 116, 87, 95]
}

/// Bytes of `"output/VotW_"`.
pub fn token_out_votw() -> (t: [u8; 12])
    ensures
        t@ == tok_out_votw(),
{
    let t: [u8; 12] = [111, 117, 116, 112, 117, 116, 47, 86, 111, 116, 87, 95];
    proof {
        assert(t@ =~= tok_out_votw());
    }
    t
}

/// Bytes of `".esp"`: suffix of the primary plugin file path.
pub open spec fn tok_esp_suffix() -> Seq<u8> {
    seq![46u8, 101, 115, 112]
}

/// Bytes of `".esp"`.
pub fn token_esp_suffix() -> (t: [u8; 4])
    ensures
        t@ == tok_esp_suffix(),
{
    let t: [u8; 4] = [46, 101, 115, 112];
    proof {
        assert(t@ =~= tok_esp_suffix());
    }
    t
}

/// Bytes of `"_DriveIn.esp"`: suffix of the compact-secondary plugin file path.
pub open spec fn tok_drivein_suffix() -> Seq<u8> {
    seq![95u8, 68, 114, 105, 118, 101, 73, 110, 46, 101, 115, 112]
}

/// Bytes of `"_DriveIn.esp"`.
pub fn token_drivein_suffix() -> (t: [u8; 12])
    ensures
        t@ == tok_drivein_suffix(),
{
    let t: [u8; 12] = [95, 68, 114, 105, 118, 101, 73, 110, 46, 101, 115, 112];
    proof {
        assert(t@ =~= tok_drivein_suffix());
    }
    t
}

/// Bytes of `"output/meshes/Videos/"`: prefix of every mesh file path.
pub open spec fn tok_mesh_prefix() -> Seq<u8> {
    seq![111u8, 117, 116, 112, 117, 116, 47, 109, 101, 115, 104, 101, 115, 47, 86, 105, 100, 101, 111, 115, 47]
}

/// Bytes of `"output/meshes/Videos/"`.
pub fn token_mesh_prefix() -> (t: [u8; 21])
    ensures
        t@ == tok_mesh_prefix(),
{
    let t: [u8; 21] = [111, 117, 116, 112, 117, 116, 47, 109, 101, 115, 104, 101, 115, 47, 86, 105, 100, 101, 111, 115, 47];
    proof {
        assert(t@ =~= tok_mesh_prefix());
    }
    t
}

/// Bytes of `".nif"`: suffix of every mesh file path.
pub open spec fn tok_nif_suffix() -> Seq<u8> {
    seq![46u8, 110, 105, 102]
}

/// Bytes of `".nif"`.
pub fn token_nif_suffix() -> (t: [u8; 4])
    ensures
        t@ == tok_nif_suffix(),
{
    let t: [u8; 4] = [46, 110, 105, 102];
    proof {
        assert(t@ =~= tok_nif_suffix());
    }
    t
}

/// Bytes of `"Television"`: directory of the primary display surface.
pub open spec fn tok_role_television() -> Seq<u8> {
    seq![84u8, 101, 108, 101, 118, 105, 115, 105, 111, 110]
}

/// Bytes of `"Television"`.
pub fn token_role_television() -> (t: [u8; 10])
    ensures
        t@ == tok_role_television(),
{
    let t: [u8; 10] = [84, 101, 108, 101, 118, 105, 115, 105, 111, 110];
    proof {
        assert(t@ =~= tok_role_television());
    }
    t
}

/// Bytes of `"Projector"`: directory of the secondary display surface.
pub open spec fn tok_role_projector() -> Seq<u8> {
    seq![80u8, 114, 111, 106, 101, 99, 116, 111, 114]
}

/// Bytes of `"Projector"`.
pub fn token_role_projector() -> (t: [u8; 9])
    ensures
        t@ == tok_role_projector(),
{
    let t: [u8; 9] = [80, 114, 111, 106, 101, 99, 116, 111, 114];
    proof {
        assert(t@ =~= tok_role_projector());
    }
    t
}

/// Bytes of `"DriveIn"`: directory of the compact-only tertiary surface.
pub open spec fn tok_role_drivein() -> Seq<u8> {
    seq![68u8, 114, 105, 118, 101, 73, 110]
}

/// Bytes of `"DriveIn"`.
pub fn token_role_drivein() -> (t: [u8; 7])
    ensures
        t@ == tok_role_drivein(),
{
    let t: [u8; 7] = [68, 114, 105, 118, 101, 73, 110];
    proof {
        assert(t@ =~= tok_role_drivein());
    }
    t
}

/// The three surfaces a video is staged on; each gets its own mesh file.
#[derive(Clone, Copy, PartialEq, Eq, Structural, Debug)]
pub enum MeshRole {
    Television,
    Projector,
    DriveIn,
}

/// The directory name of a surface under the mesh output tree.
pub open spec fn role_seq(role: MeshRole) -> Seq<u8> {
    match role {
        MeshRole::Television => tok_role_television(),
        MeshRole::Projector => tok_role_projector(),
        MeshRole::DriveIn => tok_role_drivein(),
    }
}

/// Path of the primary plugin file for a mod.
pub open spec fn primary_plugin_path_spec(mod_name: Seq<u8>) -> Seq<u8> {
    tok_out_votw() + mod_name + tok_esp_suffix()
}

/// Path of the compact-secondary plugin file for a mod.
pub open spec fn drivein_plugin_path_spec(mod_name: Seq<u8>) -> Seq<u8> {
    tok_out_votw() + mod_name + tok_drivein_suffix()
}

/// Path of one mesh file: surface directory, then the padded mod
/// identifier as a directory, then the padded video identifier as the
/// file name.
pub open spec fn mesh_path_spec(role: MeshRole, mod_token: Seq<u8>, vid_token: Seq<u8>) -> Seq<u8> {
    tok_mesh_prefix() + role_seq(role) + seq![47u8] + mod_token + seq![47u8] + vid_token
        + tok_nif_suffix()
}

/// Builds the directory name of a surface.
pub fn role_bytes(role: &MeshRole) -> (r: Vec<u8>)
    ensures
        r@ == role_seq(*role),
{
    let mut v: Vec<u8> = Vec::new();
    match role {
        MeshRole::Television => {
            let t = token_role_television();
            push_all(&mut v, t.as_slice());
        },
        MeshRole::Projector => {
            let t = token_role_projector();
            push_all(&mut v, t.as_slice());
        },
        MeshRole::DriveIn => {
            let t = token_role_drivein();
            push_all(&mut v, t.as_slice());
        },
    }
    v
}

/// Builds the primary plugin file path.
pub fn primary_plugin_path(mod_name: &Vec<u8>) -> (r: Vec<u8>)
    ensures
        r@ == primary_plugin_path_spec(mod_name@),
{
    let mut v: Vec<u8> = Vec::new();
    let p = token_out_votw();
    push_all(&mut v, p.as_slice());
    push_all(&mut v, mod_name.as_slice());
    let s = token_esp_suffix();
    push_all(&mut v, s.as_slice());
    v
}

/// Builds the compact-secondary plugin file path.
pub fn drivein_plugin_path(mod_name: &Vec<u8>) -> (r: Vec<u8>)
    ensures
        r@ == drivein_plugin_path_spec(mod_name@),
{
    let mut v: Vec<u8> = Vec::new();
    let p = token_out_votw();
    push_all(&mut v, p.as_slice());
    push_all(&mut v, mod_name.as_slice());
    let s = token_drivein_suffix();
    push_all(&mut v, s.as_slice());
    v
}

/// Builds the path of one mesh file.
pub fn mesh_path(role: &MeshRole, mod_token: &Vec<u8>, vid_token: &Vec<u8>) -> (r: Vec<u8>)
    ensures
        r@ == mesh_path_spec(*role, mod_token@, vid_token@),
{
    let mut v: Vec<u8> = Vec::new();
    let p = token_mesh_prefix();
    push_all(&mut v, p.as_slice());
    let rb = role_bytes(role);
    push_all(&mut v, rb.as_slice());
    v.push(47);
    push_all(&mut v, mod_token.as_slice());
    v.push(47);
    push_all(&mut v, vid_token.as_slice());
    let s = token_nif_suffix();
    push_all(&mut v, s.as_slice());
    proof {
        assert(v@ =~= mesh_path_spec(*role, mod_token@, vid_token@));
    }
    v
}

/// A plugin buffer after the name substitutions of one video: the mod
/// token everywhere, the three first-occurrence video tokens, the two
/// spaced mod name tokens everywhere, and the trailing-space video name.
pub open spec fn patch_plugin_names_spec(
    b: Seq<u8>,
    mod_token: Seq<u8>,
    mod_leading: Seq<u8>,
    mod_trailing: Seq<u8>,
    vid_token: Seq<u8>,
    vid_trailing: Seq<u8>,
) -> Seq<u8> {
    let b1 = rep_all_from(b, tok_autocident(), mod_token, 0);
    let b2 = replace_first_spec(b1, tok_autovident(), vid_token);
    let b3 = replace_first_spec(b2, tok_autosident(), vid_token);
    let b4 = replace_first_spec(b3, tok_autopident(), vid_token);
    let b5 = rep_all_from(b4, tok_autotident(), mod_trailing, 0);
    let b6 = rep_all_from(b5, tok_automident(), mod_leading, 0);
    replace_first_spec(b6, tok_zautoniden(), vid_trailing)
}

/// A plugin buffer after all substitutions of one video: the name
/// substitutions, then the audio asset name padded to its fourteen-byte
/// token at its first occurrence.
pub open spec fn patch_plugin_spec(
    b: Seq<u8>,
    mod_token: Seq<u8>,
    mod_leading: Seq<u8>,
    mod_trailing: Seq<u8>,
    vid_token: Seq<u8>,
    vid_trailing: Seq<u8>,
    audio: Seq<u8>,
) -> Seq<u8> {
    replace_first_spec(
        patch_plugin_names_spec(b, mod_token, mod_leading, mod_trailing, vid_token, vid_trailing),
        tok_autoidentsound(),
        pad_spec(audio, FILL_X, 14, true),
    )
}

/// Applies the identifier substitutions of one video to one plugin buffer.
/// Fails only when the audio asset name exceeds the fourteen bytes of its
/// token; the name substitutions are already applied then.
pub fn patch_plugin(
    esp: &mut Vec<u8>,
    mod_token: &Vec<u8>,
    mod_leading: &Vec<u8>,
    mod_trailing: &Vec<u8>,
    vid_token: &Vec<u8>,
    vid_trailing: &Vec<u8>,
    audio: &Vec<u8>,
) -> (result: Result<(), LengthError>)
    requires
        mod_token@.len() == 10,
        mod_leading@.len() == 10,
        mod_trailing@.len() == 10,
        vid_token@.len() == 10,
        vid_trailing@.len() == 10,
    ensures
        result is Err <==> audio@.len() > 14,
        result is Ok ==> final(esp)@ == patch_plugin_spec(
            old(esp)@,
            mod_token@,
            mod_leading@,
            mod_trailing@,
            vid_token@,
            vid_trailing@,
            audio@,
        ),
        result is Err ==> final(esp)@ == patch_plugin_names_spec(
            old(esp)@,
            mod_token@,
            mod_leading@,
            mod_trailing@,
            vid_token@,
            vid_trailing@,
        ),
        final(esp)@.len() == old(esp)@.len(),
{
    proof {
        lemma_pad_exact_len(mod_token@, FILL_X, 10, true);
        lemma_pad_exact_len(mod_leading@, FILL_X, 10, true);
        lemma_pad_exact_len(mod_trailing@, FILL_X, 10, true);
        lemma_pad_exact_len(vid_token@, FILL_X, 10, true);
        lemma_pad_exact_len(vid_trailing@, FILL_X, 10, true);
    }
    let t_c = token_autocident();
    match replace_all_strings_in_bytes(esp, t_c.as_slice(), mod_token.as_slice()) {
        Ok(_) => (),
        Err(_) => {
            proof {
                assert(false);
            }
        },
    }
    let t_v = token_autovident();
    match replace_first_string_in_bytes(esp, t_v.as_slice(), vid_token.as_slice()) {
        Ok(_) => (),
        Err(_) => {
            proof {
                assert(false);
            }
        },
    }
    let t_s = token_autosident();
    match replace_first_string_in_bytes(esp, t_s.as_slice(), vid_token.as_slice()) {
        Ok(_) => (),
        Err(_) => {
            proof {
                assert(false);
            }
        },
    }
    let t_p = token_autopident();
    match replace_first_string_in_bytes(esp, t_p.as_slice(), vid_token.as_slice()) {
        Ok(_) => (),
        Err(_) => {
            proof {
                assert(false);
            }
        },
    }
    let t_t = token_autotident();
    match replace_all_strings_in_bytes(esp, t_t.as_slice(), mod_trailing.as_slice()) {
        Ok(_) => (),
        Err(_) => {
            proof {
                assert(false);
            }
        },
    }
    let t_m = token_automident();
    match replace_all_strings_in_bytes(esp, t_m.as_slice(), mod_leading.as_slice()) {
        Ok(_) => (),
        Err(_) => {
            proof {
                assert(false);
            }
        },
    }
    let t_z = token_zautoniden();
    match replace_first_string_in_bytes(esp, t_z.as_slice(), vid_trailing.as_slice()) {
        Ok(_) => (),
        Err(_) => {
            proof {
                assert(false);
            }
        },
    }
    let t_a = token_autoidentsound();
    replace_first_string_in_bytes(esp, t_a.as_slice(), audio.as_slice())
}

/// A mesh buffer after one video's patches: the video identifier wherever
/// the compact-identifier token stands, the mod identifier wherever the
/// mod-identifier token stands, then all timing patches.
pub open spec fn patch_mesh_spec(
    b: Seq<u8>,
    vid_token: Seq<u8>,
    mod_token: Seq<u8>,
    grid_amount: int,
    stop_bits: u32,
    frame_rate: u32,
    times: RescaledTimes,
) -> Seq<u8> {
    let b1 = rep_all_from(b, tok_autocident(), vid_token, 0);
    let b2 = rep_all_from(b1, tok_automident(), mod_token, 0);
    patch_timings_spec(b2, grid_amount, stop_bits, frame_rate, times)
}

/// Applies one video's identifier substitutions and timing patches to one
/// mesh buffer.
pub fn patch_mesh(
    mesh: &mut Vec<u8>,
    vid_token: &Vec<u8>,
    mod_token: &Vec<u8>,
    grid_amount: u32,
    stop_bits: u32,
    frame_rate: u32,
    times: &RescaledTimes,
)
    requires
        vid_token@.len() == 10,
        mod_token@.len() == 10,
    ensures
        final(mesh)@ == patch_mesh_spec(
            old(mesh)@,
            vid_token@,
            mod_token@,
            grid_amount as int,
            stop_bits,
            frame_rate,
            *times,
        ),
        final(mesh)@.len() == old(mesh)@.len(),
{
    proof {
        lemma_pad_exact_len(vid_token@, FILL_X, 10, true);
        lemma_pad_exact_len(mod_token@, FILL_X, 10, true);
    }
    let t_c = token_autocident();
    match replace_all_strings_in_bytes(mesh, t_c.as_slice(), vid_token.as_slice()) {
        Ok(_) => (),
        Err(_) => {
            proof {
                assert(false);
            }
        },
    }
    let t_m = token_automident();
    match replace_all_strings_in_bytes(mesh, t_m.as_slice(), mod_token.as_slice()) {
        Ok(_) => (),
        Err(_) => {
            proof {
                assert(false);
            }
        },
    }
    patch_grid_timings(mesh, grid_amount, stop_bits, frame_rate, times);
}

} // verus!
