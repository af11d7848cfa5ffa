//! That the state tells what a profile has done.
use vstd::prelude::*;

use crate::ini::{default_engine, file_text, s1_engine, s1_engine_extra};
use crate::machine::{group_held, held, lemma_held_end, lemma_held_then, Machine};
use crate::optimizer::{
    apply_patches_talk, apply_profile_talk, check_dxvk_installed_talk, check_exe_laa_talk,
    check_game_bar_disabled_talk, check_ini_aggressive_talk, check_ini_patched_talk, check_lfh_enabled_talk,
    check_nvidia_tweaks_talk, d3d9, default_ini, exe, get_status_talk, install_dxvk_talk, patch_exe_laa_talk,
    patch_ini_aggressive_talk, patch_ini_files_talk, s1_ini, Profile,
};
use crate::patterns::lemma_base_leaves;
use crate::pe::apart;
use crate::place::{spec_at, Place};
use crate::settings::{
    has_setting, law_changed_settings_are_found, law_further_settings_are_found,
    law_further_settings_build_on_the_first, lemma_aggressive_is_patching, lemma_apply_patches_refuses,
    lemma_base_patched,
};
use crate::text::{holds, Text};
use crate::undo::{
    after_profile, law_flag_is_found, lemma_apply_patches_changes, lemma_checks_only_read,
    lemma_install_dxvk, lemma_keep_d3d9, lemma_patch_exe_changes, lemma_patch_ini_changes, lemma_profile, same_file,
};

verus! {

/// A file that is the same on two machines that refuse nothing is found to be the same.
pub proof fn lemma_same_checks(m: Machine, n: Machine)
    requires
        m.wf(),
        n.wf(),
        m.willing(),
        n.willing(),
    ensures
        same_file(m, n, s1_ini()) ==> held(check_ini_patched_talk(), n).1 == held(check_ini_patched_talk(), m).1,
        same_file(m, n, exe()) ==> held(check_exe_laa_talk(), n).1 == held(check_exe_laa_talk(), m).1,
        same_file(m, n, d3d9()) ==> held(check_dxvk_installed_talk(), n).1 == held(
            check_dxvk_installed_talk(),
            m,
        ).1,
{
    broadcast use group_held;

}

/// The steps leave a machine as willing as it is.
pub proof fn lemma_steps_refuse_nothing(m: Machine)
    requires
        m.wf(),
        m.willing(),
    ensures
        held(patch_ini_files_talk(), m).0.wf(),
        held(patch_ini_files_talk(), m).0.willing(),
        held(patch_exe_laa_talk(), m).0.wf(),
        held(patch_exe_laa_talk(), m).0.willing(),
        held(install_dxvk_talk(), m).0.wf(),
        held(install_dxvk_talk(), m).0.willing(),
        held(patch_ini_aggressive_talk(), m).0.wf(),
        held(patch_ini_aggressive_talk(), m).0.willing(),
{
    lemma_install_dxvk(m, s1_ini());
    lemma_patch_exe_refuses(m);
    lemma_aggressive_is_patching(m);
    lemma_apply_patches_refuses(s1_ini(), s1_engine_extra(), m);
    lemma_patch_ini_refuses(m);
}

proof fn lemma_patch_exe_refuses(m: Machine)
    ensures
        held(patch_exe_laa_talk(), m).0.refuses == m.refuses,
        held(patch_exe_laa_talk(), m).0.folders == m.folders,
{
    broadcast use group_held;

}

proof fn lemma_patch_ini_refuses(m: Machine)
    ensures
        held(patch_ini_files_talk(), m).0.refuses == m.refuses,
        held(patch_ini_files_talk(), m).0.folders == m.folders,
{
    let (first, a) = held(apply_patches_talk(s1_ini(), s1_engine()), m);
    lemma_apply_patches_refuses(s1_ini(), s1_engine(), m);
    lemma_apply_patches_refuses(default_ini(), default_engine(), first);
    broadcast use {lemma_held_then, lemma_held_end};

}

/// Once DXVK could be installed it counts as installed, where the library that comes
/// with the launcher is large enough.
proof fn lemma_dxvk_found(m: Machine)
    requires
        m.wf(),
        m.willing(),
        held(install_dxvk_talk(), m).1 is Ok,
        3_000_000 < m.files[spec_at(Place::DxvkDllSource)].len() <= u64::MAX,
    ensures
        held(check_dxvk_installed_talk(), held(install_dxvk_talk(), m).0).1,
{
    broadcast use group_held;

}

/// The state is made of what the single checks find.
proof fn lemma_status(m: Machine, windows: bool)
    ensures
        ({
            let r = held(get_status_talk(windows), m).1;
            &&& r.ini_patched == held(check_ini_patched_talk(), m).1
            &&& r.ini_aggressive == held(check_ini_aggressive_talk(), m).1
            &&& r.laa_patched == (held(check_exe_laa_talk(), m).1 == Ok::<bool, Text>(true))
            &&& r.dxvk_installed == held(check_dxvk_installed_talk(), m).1
        }),
{
    lemma_checks_only_read(windows);
    broadcast use {lemma_held_then, lemma_held_end};

    assert(held(check_ini_patched_talk(), m).0 == m);
    assert(held(check_ini_aggressive_talk(), m).0 == m);
    assert(held(check_exe_laa_talk(), m).0 == m);
    assert(held(check_dxvk_installed_talk(), m).0 == m);
    assert(held(check_lfh_enabled_talk(windows), m).0 == m);
    assert(held(check_game_bar_disabled_talk(windows), m).0 == m);
    assert(held(check_nvidia_tweaks_talk(windows), m).0 == m);
}

/// A profile that was a success is seen in the state: the settings files with every
/// profile, the program with all but the safe one, DXVK with the two largest and the
/// further settings with the largest. The settings that are looked for have to be in
/// the file, with either value; the program's flag must not be part of the number
/// that says where its header begins; and the DXVK library has to have more than
/// three million bytes.
pub proof fn law_state_tells_of_the_profile(m: Machine, profile: Profile, bundled: bool, windows: bool)
    requires
        m.wf(),
        m.willing(),
        held(apply_profile_talk(profile, bundled, windows), m).1.success,
        has_setting(m, "OneFrameThreadLag=False"@, "OneFrameThreadLag=True"@),
        has_setting(m, "MotionBlur=True"@, "MotionBlur=False"@),
        profile != Profile::Safe ==> apart(m.files[exe()]),
        profile == Profile::Maximum || profile == Profile::Ultra ==> 3_000_000 < m.files[spec_at(
            Place::DxvkDllSource,
        )].len() <= u64::MAX,
        profile == Profile::Ultra ==> {
            &&& has_setting(m, "DynamicShadows=True"@, "DynamicShadows=False"@)
            &&& has_setting(m, "SkeletalMeshLODBias=0"@, "SkeletalMeshLODBias=2"@)
        },
    ensures
        ({
            let after = held(apply_profile_talk(profile, bundled, windows), m).0;
            let state = held(get_status_talk(windows), after).1;
            &&& state.ini_patched
            &&& profile != Profile::Safe ==> state.laa_patched
            &&& profile == Profile::Maximum || profile == Profile::Ultra ==> state.dxvk_installed
            &&& profile == Profile::Ultra ==> state.ini_aggressive
        }),
{
    lemma_profile(profile, bundled, windows, m);
    lemma_status(after_profile(profile, bundled, m), windows);
    // The settings files.
    let m1 = held(patch_ini_files_talk(), m).0;
    lemma_steps_refuse_nothing(m);
    law_changed_settings_are_found(m);
    lemma_base_patched(m);
    if profile != Profile::Safe {
        // The program.
        let m2 = held(patch_exe_laa_talk(), m1).0;
        lemma_steps_refuse_nothing(m1);
        lemma_patch_ini_changes(m, exe());
        lemma_exe_is_there(m1);
        law_flag_is_found(m1);
        lemma_patch_exe_changes(m1, s1_ini());
        lemma_same_checks(m1, m2);
        if profile != Profile::Balanced {
            // DXVK.
            let m3 = held(install_dxvk_talk(), m2).0;
            lemma_steps_refuse_nothing(m2);
            lemma_patch_ini_changes(m, spec_at(Place::DxvkDllSource));
            lemma_patch_exe_changes(m1, spec_at(Place::DxvkDllSource));
            lemma_library_is_there(m2);
            lemma_dxvk_found(m2);
            lemma_install_dxvk(m2, s1_ini());
            lemma_install_dxvk(m2, exe());
            lemma_same_checks(m2, m3);
            if profile == Profile::Ultra {
                // The rest.
                let m4 = held(patch_ini_aggressive_talk(), m3).0;
                lemma_steps_refuse_nothing(m3);
                lemma_still_has_settings(m, m3);
                law_further_settings_are_found(m3);
                law_further_settings_build_on_the_first(m3);
                lemma_aggressive_is_patching(m3);
                lemma_apply_patches_changes(s1_ini(), s1_engine_extra(), m3, exe());
                lemma_apply_patches_changes(s1_ini(), s1_engine_extra(), m3, d3d9());
                lemma_same_checks(m3, m4);
            }
        }
    }
}

/// A program whose flag could be set is there.
pub proof fn lemma_exe_is_there(m: Machine)
    requires
        m.wf(),
        held(patch_exe_laa_talk(), m).1 is Ok,
    ensures
        m.has(exe()),
{
    broadcast use group_held;

}

/// A library that could be installed is there.
proof fn lemma_library_is_there(m: Machine)
    requires
        m.wf(),
        held(install_dxvk_talk(), m).1 is Ok,
    ensures
        m.has(spec_at(Place::DxvkDllSource)),
{
    broadcast use group_held;

    lemma_keep_d3d9(m);
}

/// The settings that the further replacements turn to are there after the first ones.
proof fn lemma_still_has_settings(m: Machine, n: Machine)
    requires
        m.wf(),
        m.willing(),
        held(patch_ini_files_talk(), m).1 is Ok,
        has_setting(m, "DynamicShadows=True"@, "DynamicShadows=False"@),
        has_setting(m, "SkeletalMeshLODBias=0"@, "SkeletalMeshLODBias=2"@),
        n.has(s1_ini()),
        n.files[s1_ini()] == held(patch_ini_files_talk(), m).0.files[s1_ini()],
    ensures
        has_setting(n, "DynamicShadows=True"@, "DynamicShadows=False"@),
        has_setting(n, "SkeletalMeshLODBias=0"@, "SkeletalMeshLODBias=2"@),
{
    lemma_base_patched(m);
    let s = file_text(m.files[s1_ini()])->Ok_0.0;
    if holds(s, "DynamicShadows=True"@) {
        lemma_base_leaves(s, "DynamicShadows=True"@);
    } else {
        lemma_base_leaves(s, "DynamicShadows=False"@);
    }
    if holds(s, "SkeletalMeshLODBias=0"@) {
        lemma_base_leaves(s, "SkeletalMeshLODBias=0"@);
    } else {
        lemma_base_leaves(s, "SkeletalMeshLODBias=2"@);
    }
}

} // verus!
