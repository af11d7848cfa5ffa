//! What making the settings again and reverting them comes to.
use vstd::prelude::*;

use crate::host::{done_of, RequestView};
use crate::ini::{applied, default_engine, file_text, patched, s1_engine, s1_engine_extra, text_file, PatchView};
use crate::machine::{group_held, held, Machine};
use crate::number::dec;
use crate::optimizer::{
    apply_patches_talk, apply_profile_talk, check_ini_patched_talk, d3d9, default_ini, enable_game_bar_talk, exe,
    install_dxvk_talk, keep_d3d9_talk, patch_exe_laa_talk, patch_ini_aggressive_talk, patch_ini_files_talk,
    report, revert_all_talk, revert_exe_laa_talk, revert_ini_files_talk, s1_ini, uninstall_dxvk_talk, Profile,
};
use crate::patterns::law_replacements_are_made_once;
use crate::place::{spec_at, Location, Place};
use crate::profile::names;
use crate::settings::{lemma_aggressive_is_patching, lemma_file_patched};
use crate::status::{lemma_exe_is_there, lemma_same_checks, lemma_steps_refuse_nothing};
use crate::step::{told, StepView};
use crate::text::Text;
use crate::undo::{
    after_profile, can_be_made, changed_in_place, law_first_version_is_safe, lemma_apply_patches_changes,
    lemma_backup_once, lemma_install_dxvk, lemma_keep_d3d9, lemma_patch_exe_changes, lemma_patch_ini_changes,
    lemma_place_conf, lemma_profile, lemma_restore, lemma_revert_all, restored, safe, safely, same_file,
};

verus! {

/// Replacements in a settings file that find nothing to replace leave the machine as it
/// is, where the file has a backup and is written as it would be.
proof fn lemma_nothing_replaced(m: Machine, l: Location, patches: Seq<PatchView>, s: Text, utf16: bool)
    requires
        m.wf(),
        m.willing(),
        l == s1_ini() || l == default_ini(),
        m.has(l),
        m.has(l.backup()),
        m.files[l] == text_file(s, utf16),
        file_text(m.files[l]) == Ok::<(Text, bool), Text>((s, utf16)),
        patched(s, patches, patches.len() as int) == s,
        applied(s, patches, patches.len() as int) == 0,
    ensures
        held(apply_patches_talk(l, patches), m) == (m, Ok::<nat, Text>(0)),
{
    lemma_backup_once(m, l);
    assert(m.with(l, m.files[l]).files =~= m.files);
    broadcast use group_held;

}

/// The settings that cost frames are changed once: where they were changed, changing
/// them again replaces nothing and leaves every file as it is.
pub proof fn law_settings_are_changed_once(m: Machine)
    requires
        m.wf(),
        m.willing(),
        held(patch_ini_files_talk(), m).1 is Ok,
    ensures
        ({
            let made = held(patch_ini_files_talk(), m).0;
            held(patch_ini_files_talk(), made) == (
                made,
                Ok::<StepView, Text>(
                    told(
                        "INI patches"@,
                        true,
                        "S1Engine: 0 replacements, DefaultEngine: 0 replacements"@,
                    ),
                ),
            )
        }),
{
    let (first, a) = held(apply_patches_talk(s1_ini(), s1_engine()), m);
    let (made, b) = held(apply_patches_talk(default_ini(), default_engine()), first);
    lemma_patching_is_two(m);
    lemma_file_patched(m, s1_ini(), s1_engine());
    lemma_file_patched(first, default_ini(), default_engine());
    lemma_apply_patches_changes(default_ini(), default_engine(), first, s1_ini());
    lemma_apply_patches_changes(default_ini(), default_engine(), first, s1_ini().backup());
    let (s, u) = file_text(m.files[s1_ini()])->Ok_0;
    let (t, v) = file_text(first.files[default_ini()])->Ok_0;
    law_replacements_are_made_once(s, s1_engine());
    law_replacements_are_made_once(t, default_engine());
    lemma_nothing_replaced(made, s1_ini(), s1_engine(), patched(s, s1_engine(), s1_engine().len() as int), u);
    lemma_nothing_replaced(
        made,
        default_ini(),
        default_engine(),
        patched(t, default_engine(), default_engine().len() as int),
        v,
    );
    lemma_patching_is_two(made);
    reveal_strlit("S1Engine: ");
    reveal_strlit(" replacements, DefaultEngine: ");
    reveal_strlit(" replacements");
    reveal_strlit("S1Engine: 0 replacements, DefaultEngine: 0 replacements");
    assert("S1Engine: "@ + dec(0) + " replacements, DefaultEngine: "@ + dec(0) + " replacements"@
        =~= "S1Engine: 0 replacements, DefaultEngine: 0 replacements"@);
}

/// Changing the settings that cost frames is changing one file and then the other.
proof fn lemma_patching_is_two(m: Machine)
    ensures
        ({
            let (first, a) = held(apply_patches_talk(s1_ini(), s1_engine()), m);
            let (made, b) = held(apply_patches_talk(default_ini(), default_engine()), first);
            let r = held(patch_ini_files_talk(), m);
            &&& r.1 is Ok <==> a is Ok && b is Ok
            &&& a is Ok ==> r.0 == made
            &&& a is Ok && b is Ok ==> r.1 == Ok::<StepView, Text>(
                told(
                    "INI patches"@,
                    true,
                    "S1Engine: "@ + dec(a->Ok_0) + " replacements, DefaultEngine: "@ + dec(b->Ok_0)
                        + " replacements"@,
                ),
            )
        }),
{
    broadcast use group_held;

}

/// The further settings are changed once too.
pub proof fn law_further_settings_are_changed_once(m: Machine)
    requires
        m.wf(),
        m.willing(),
        held(patch_ini_aggressive_talk(), m).1 is Ok,
    ensures
        ({
            let made = held(patch_ini_aggressive_talk(), m).0;
            held(patch_ini_aggressive_talk(), made) == (
                made,
                Ok::<StepView, Text>(told("INI aggressive"@, true, "0 aggressive replacements"@)),
            )
        }),
{
    lemma_aggressive_is_patching(m);
    lemma_file_patched(m, s1_ini(), s1_engine_extra());
    let made = held(patch_ini_aggressive_talk(), m).0;
    let (s, u) = file_text(m.files[s1_ini()])->Ok_0;
    law_replacements_are_made_once(s, s1_engine_extra());
    let t = patched(s, s1_engine_extra(), s1_engine_extra().len() as int);
    lemma_nothing_replaced(made, s1_ini(), s1_engine_extra(), t, u);
    reveal_strlit(" aggressive replacements");
    reveal_strlit("0 aggressive replacements");
    assert(dec(0) + " aggressive replacements"@ =~= "0 aggressive replacements"@);
    broadcast use group_held;

}

/// The machine after settings were changed any number of times: those that cost frames
/// where `ops` says so, else the further ones.
pub open spec fn after_changes(ops: Seq<bool>, m: Machine) -> Machine
    decreases ops.len(),
{
    if ops.len() == 0 {
        m
    } else {
        let before = after_changes(ops.drop_last(), m);
        if ops.last() {
            held(patch_ini_files_talk(), before).0
        } else {
            held(patch_ini_aggressive_talk(), before).0
        }
    }
}

/// However often settings are changed, the first version of a file stays safe.
proof fn lemma_changes_keep(ops: Seq<bool>, m: Machine, l: Location, first: Seq<u8>)
    requires
        m.wf(),
        changed_in_place(l),
        safe(m, l, first),
    ensures
        safely(m, after_changes(ops, m), l, first),
    decreases ops.len(),
{
    if ops.len() > 0 {
        let before = after_changes(ops.drop_last(), m);
        lemma_changes_keep(ops.drop_last(), m, l, first);
        law_first_version_is_safe(l, Profile::Safe, false, false);
        assert(safe(before, l, first));
        assert(safely(before, held(patch_ini_files_talk(), before).0, l, first));
        assert(safely(before, held(patch_ini_aggressive_talk(), before).0, l, first));
    }
}

/// Once the settings that cost frames were changed both files have backups, and their
/// first versions are safe.
proof fn lemma_backups_are_there(m: Machine)
    requires
        m.wf(),
        m.willing(),
        !m.has(s1_ini().backup()),
        !m.has(default_ini().backup()),
        held(patch_ini_files_talk(), m).1 is Ok,
    ensures
        ({
            let made = held(patch_ini_files_talk(), m).0;
            &&& m.has(s1_ini()) && m.has(default_ini())
            &&& made.has(s1_ini().backup()) && made.has(default_ini().backup())
            &&& safely(m, made, s1_ini(), m.files[s1_ini()])
            &&& safely(m, made, default_ini(), m.files[default_ini()])
        }),
{
    let first = held(apply_patches_talk(s1_ini(), s1_engine()), m).0;
    lemma_patching_is_two(m);
    lemma_file_patched(m, s1_ini(), s1_engine());
    lemma_file_patched(first, default_ini(), default_engine());
    lemma_apply_patches_changes(s1_ini(), s1_engine(), m, default_ini());
    lemma_apply_patches_changes(default_ini(), default_engine(), first, s1_ini().backup());
    law_first_version_is_safe(s1_ini(), Profile::Safe, false, false);
    law_first_version_is_safe(default_ini(), Profile::Safe, false, false);
    assert(safe(m, s1_ini(), m.files[s1_ini()]));
    assert(safe(m, default_ini(), m.files[default_ini()]));
}

/// What reverting the settings files comes to where both have backups.
proof fn lemma_both_restored(m: Machine)
    requires
        m.willing(),
        m.has(s1_ini().backup()),
        m.has(default_ini().backup()),
    ensures
        held(revert_ini_files_talk(), m) == (
            restored(restored(m, s1_ini()), default_ini()),
            Ok::<StepView, Text>(told("INI revert"@, true, "2 file(s) restored from backup"@)),
        ),
{
    lemma_restore(m, s1_ini());
    lemma_restore(restored(m, s1_ini()), default_ini());
    reveal_strlit(" file(s) restored from backup");
    reveal_strlit("2 file(s) restored from backup");
    assert(dec(2) + " file(s) restored from backup"@ =~= "2 file(s) restored from backup"@);
    broadcast use group_held;

}

/// Reverting the settings files after they were changed, and however often they were
/// changed further, restores both of them, and tells so. The backups remain: reverting
/// once more does and tells the same.
pub proof fn law_settings_are_reverted(m: Machine, ops: Seq<bool>)
    requires
        m.wf(),
        m.willing(),
        !m.has(s1_ini().backup()),
        !m.has(default_ini().backup()),
        held(patch_ini_files_talk(), m).1 is Ok,
    ensures
        ({
            let made = after_changes(ops, held(patch_ini_files_talk(), m).0);
            let (after, r) = held(revert_ini_files_talk(), made);
            &&& r == Ok::<StepView, Text>(told("INI revert"@, true, "2 file(s) restored from backup"@))
            &&& same_file(m, after, s1_ini())
            &&& same_file(m, after, default_ini())
            &&& after.willing()
            &&& after.has(s1_ini().backup()) && after.has(default_ini().backup())
            &&& held(revert_ini_files_talk(), after) == (after, r)
        }),
{
    let first = held(patch_ini_files_talk(), m).0;
    let made = after_changes(ops, first);
    lemma_backups_are_there(m);
    lemma_changes_keep(ops, first, s1_ini(), m.files[s1_ini()]);
    lemma_changes_keep(ops, first, default_ini(), m.files[default_ini()]);
    lemma_both_restored(made);
    let after = restored(restored(made, s1_ini()), default_ini());
    lemma_both_restored(after);
    assert(restored(restored(after, s1_ini()), default_ini()).files =~= after.files);
}

/// Once the settings files are reverted the settings are found as they were before they
/// were changed.
pub proof fn law_reverted_settings_are_found_as_before(m: Machine, ops: Seq<bool>)
    requires
        m.wf(),
        m.willing(),
        !m.has(s1_ini().backup()),
        !m.has(default_ini().backup()),
        held(patch_ini_files_talk(), m).1 is Ok,
    ensures
        ({
            let made = after_changes(ops, held(patch_ini_files_talk(), m).0);
            let after = held(revert_ini_files_talk(), made).0;
            held(check_ini_patched_talk(), after).1 == held(check_ini_patched_talk(), m).1
        }),
{
    law_settings_are_reverted(m, ops);
    lemma_same_checks(m, held(revert_ini_files_talk(), after_changes(ops, held(patch_ini_files_talk(), m).0)).0);
}

/// Without a settings file no settings are found changed.
pub proof fn law_no_settings_are_found_without_the_file(m: Machine)
    requires
        m.wf(),
        !m.has(s1_ini()),
    ensures
        !held(check_ini_patched_talk(), m).1,
{
    broadcast use group_held;

}

/// The machine after the flag of the program was set `n` times.
pub open spec fn after_flags(m: Machine, n: nat) -> Machine
    decreases n,
{
    if n == 0 {
        m
    } else {
        held(patch_exe_laa_talk(), after_flags(m, (n - 1) as nat)).0
    }
}

/// Setting the flag of the program makes a backup of it.
proof fn lemma_flag_makes_a_backup(m: Machine)
    requires
        m.wf(),
        m.willing(),
        m.has(exe()),
    ensures
        held(patch_exe_laa_talk(), m).0.has(exe().backup()),
        held(patch_exe_laa_talk(), m).0.has(exe()),
{
    lemma_backup_once(m, exe());
    broadcast use group_held;

}

proof fn lemma_flags_keep(m: Machine, n: nat)
    requires
        m.wf(),
        m.willing(),
        m.has(exe()),
        !m.has(exe().backup()),
    ensures
        safely(m, after_flags(m, n), exe(), m.files[exe()]),
        after_flags(m, n).has(exe()),
        after_flags(m, n).has(exe().backup()) == (n >= 1),
    decreases n,
{
    assert(safe(m, exe(), m.files[exe()]));
    if n > 0 {
        let before = after_flags(m, (n - 1) as nat);
        lemma_flags_keep(m, (n - 1) as nat);
        law_first_version_is_safe(exe(), Profile::Safe, false, false);
        assert(safely(before, held(patch_exe_laa_talk(), before).0, exe(), m.files[exe()]));
        lemma_flag_makes_a_backup(before);
    }
}

/// However often the flag of the program was set, reverting gives the program as it was.
/// It tells of the backup where the flag was set at all, and that there is none where it
/// was not.
pub proof fn law_program_is_reverted(m: Machine, n: nat)
    requires
        m.wf(),
        m.willing(),
        m.has(exe()),
        !m.has(exe().backup()),
    ensures
        ({
            let (after, r) = held(revert_exe_laa_talk(), after_flags(m, n));
            &&& same_file(m, after, exe())
            &&& n >= 1 ==> r == Ok::<StepView, Text>(told("LAA revert"@, true, "exe restored"@))
            &&& n == 0 ==> r == Ok::<StepView, Text>(told("LAA revert"@, false, "no backup found"@))
        }),
{
    lemma_flags_keep(m, n);
    lemma_restore(after_flags(m, n), exe());
    broadcast use group_held;

}

/// What installing DXVK comes to on a machine that refuses nothing, where it succeeds:
/// the library that was there is kept, unless it counts as one of DXVK.
proof fn lemma_installed_beside(m: Machine)
    requires
        m.wf(),
        m.willing(),
        !m.has(d3d9().backup()),
        held(install_dxvk_talk(), m).1 is Ok,
    ensures
        ({
            let after = held(install_dxvk_talk(), m).0;
            &&& after.has(d3d9())
            &&& !m.has(d3d9()) ==> !after.has(d3d9().backup())
            &&& m.has(d3d9()) && m.files[d3d9()].len() < 4_000_000 ==> after.has(d3d9().backup())
                && after.files[d3d9().backup()] == m.files[d3d9()]
        }),
{
    lemma_keep_d3d9(m);
    let (mid, kept) = held(keep_d3d9_talk(), m);
    let copied = held(done_of(RequestView::CopyFile(spec_at(Place::DxvkDllSource), d3d9())), mid).0;
    lemma_place_conf(copied);
    broadcast use group_held;

}

/// What taking DXVK away comes to where its library is there.
proof fn lemma_taken_away(m: Machine)
    requires
        m.willing(),
        m.has(d3d9()),
    ensures
        ({
            let (after, r) = held(uninstall_dxvk_talk(), m);
            &&& r == Ok::<StepView, Text>(told("DXVK uninstall"@, true, "d3d9.dll restored/removed"@))
            &&& after == (if m.has(d3d9().backup()) {
                restored(m, d3d9())
            } else {
                m.without(d3d9())
            })
        }),
{
    lemma_restore(m, d3d9());
    broadcast use group_held;

}

/// The graphics library and its backup are left as they are by the other steps.
proof fn lemma_library_is_left(m: Machine, l: Location)
    requires
        m.wf(),
        l.place == Place::D3d9Dll,
    ensures
        same_file(m, held(patch_ini_files_talk(), m).0, l),
        same_file(m, held(patch_exe_laa_talk(), m).0, l),
        same_file(m, held(patch_ini_aggressive_talk(), m).0, l),
{
    lemma_patch_ini_changes(m, l);
    lemma_patch_exe_changes(m, l);
    lemma_aggressive_is_patching(m);
    lemma_apply_patches_changes(s1_ini(), s1_engine_extra(), m, l);
}

/// Where the graphics library and its backup stand after one of the largest profiles.
proof fn lemma_library_after_profile(m: Machine, profile: Profile)
    requires
        m.wf(),
        m.willing(),
        profile == Profile::Maximum || profile == Profile::Ultra,
        can_be_made(profile, true, m),
        !m.has(d3d9().backup()),
        m.has(d3d9()) ==> m.files[d3d9()].len() < 4_000_000,
    ensures
        ({
            let made = after_profile(profile, true, m);
            &&& made.has(d3d9())
            &&& made.has(d3d9().backup()) == m.has(d3d9())
            &&& m.has(d3d9()) ==> made.files[d3d9().backup()] == m.files[d3d9()]
        }),
{
    let m1 = held(patch_ini_files_talk(), m).0;
    let m2 = held(patch_exe_laa_talk(), m1).0;
    let m3 = held(install_dxvk_talk(), m2).0;
    lemma_steps_refuse_nothing(m);
    lemma_steps_refuse_nothing(m1);
    lemma_steps_refuse_nothing(m2);
    lemma_library_is_left(m, d3d9());
    lemma_library_is_left(m, d3d9().backup());
    lemma_library_is_left(m1, d3d9());
    lemma_library_is_left(m1, d3d9().backup());
    lemma_installed_beside(m2);
    lemma_library_is_left(m3, d3d9());
    lemma_library_is_left(m3, d3d9().backup());
}

/// The backups that the largest profiles make of the files that are changed in place.
proof fn lemma_backups_after_profile(m: Machine, profile: Profile)
    requires
        m.wf(),
        m.willing(),
        profile == Profile::Maximum || profile == Profile::Ultra,
        can_be_made(profile, true, m),
        !m.has(s1_ini().backup()),
        !m.has(default_ini().backup()),
        !m.has(exe().backup()),
    ensures
        m.has(s1_ini()) && m.has(default_ini()) && m.has(exe()),
        forall|l: Location| changed_in_place(l) ==> #[trigger] after_profile(profile, true, m).has(l.backup()),
{
    let m1 = held(patch_ini_files_talk(), m).0;
    let m2 = held(patch_exe_laa_talk(), m1).0;
    let m3 = held(install_dxvk_talk(), m2).0;
    lemma_steps_refuse_nothing(m);
    lemma_steps_refuse_nothing(m1);
    lemma_steps_refuse_nothing(m2);
    lemma_backups_are_there(m);
    lemma_patch_ini_changes(m, exe());
    lemma_exe_is_there(m1);
    lemma_flag_makes_a_backup(m1);
    lemma_patch_exe_changes(m1, s1_ini().backup());
    lemma_patch_exe_changes(m1, default_ini().backup());
    lemma_install_dxvk(m2, s1_ini().backup());
    lemma_install_dxvk(m2, default_ini().backup());
    lemma_install_dxvk(m2, exe().backup());
    lemma_aggressive_is_patching(m3);
    lemma_apply_patches_changes(s1_ini(), s1_engine_extra(), m3, default_ini().backup());
    lemma_apply_patches_changes(s1_ini(), s1_engine_extra(), m3, exe().backup());
    if profile == Profile::Ultra {
        lemma_file_patched(m3, s1_ini(), s1_engine_extra());
    }
}

/// One of the largest profiles, whose steps were all made, and undoing all leave the
/// settings files, the program and the graphics library as they were, or as little there.
/// The steps that undo them are told in their order, and those that touch files are a
/// success; all of it is one exactly where the one for Windows is too. A library of four
/// million bytes or more counts as a DXVK library and is left out.
pub proof fn law_largest_profiles_are_undone(m: Machine, profile: Profile, windows: bool)
    requires
        m.wf(),
        m.willing(),
        profile == Profile::Maximum || profile == Profile::Ultra,
        can_be_made(profile, true, m),
        !m.has(s1_ini().backup()),
        !m.has(default_ini().backup()),
        !m.has(exe().backup()),
        !m.has(d3d9().backup()),
        m.has(d3d9()) ==> m.files[d3d9()].len() < 4_000_000,
    ensures
        ({
            let made = held(apply_profile_talk(profile, true, windows), m).0;
            let (after, r) = held(revert_all_talk(windows), made);
            &&& same_file(m, after, s1_ini())
            &&& same_file(m, after, default_ini())
            &&& same_file(m, after, exe())
            &&& same_file(m, after, d3d9())
            &&& names(r.steps) == seq!["INI revert"@, "LAA revert"@, "DXVK uninstall"@, "Game Bar revert"@]
            &&& r.steps[0].ok && r.steps[1].ok && r.steps[2].ok
            &&& r.success <==> r.steps[3].ok
            &&& r.steps[3].ok == windows
        }),
{
    let made = after_profile(profile, true, m);
    lemma_profile(profile, true, windows, m);
    lemma_backups_after_profile(m, profile);
    lemma_library_after_profile(m, profile);
    law_first_version_is_safe(s1_ini(), profile, true, windows);
    law_first_version_is_safe(default_ini(), profile, true, windows);
    law_first_version_is_safe(exe(), profile, true, windows);
    assert(safe(m, s1_ini(), m.files[s1_ini()]));
    assert(safe(m, default_ini(), m.files[default_ini()]));
    assert(safe(m, exe(), m.files[exe()]));
    assert(safely(m, made, s1_ini(), m.files[s1_ini()]));
    assert(safely(m, made, default_ini(), m.files[default_ini()]));
    assert(safely(m, made, exe(), m.files[exe()]));
    lemma_all_reverted(made, windows);
    let steps = held(revert_all_talk(windows), made).1.steps;
    assert(names(steps) =~= seq!["INI revert"@, "LAA revert"@, "DXVK uninstall"@, "Game Bar revert"@]);
    if steps[3].ok {
        assert forall|i: int| 0 <= i < steps.len() implies (#[trigger] steps[i]).ok by {
            assert(i == 0 || i == 1 || i == 2 || i == 3);
        }
    }
}

/// What undoing all comes to, and what is told of it, where there are backups of the
/// files that are changed in place and the graphics library is there.
proof fn lemma_all_reverted(m: Machine, windows: bool)
    requires
        m.willing(),
        m.has(s1_ini().backup()),
        m.has(default_ini().backup()),
        m.has(exe().backup()),
        m.has(d3d9()),
    ensures
        ({
            let m2 = restored(restored(restored(m, s1_ini()), default_ini()), exe());
            let (after, r) = held(revert_all_talk(windows), m);
            &&& after == (if m.has(d3d9().backup()) {
                restored(m2, d3d9())
            } else {
                m2.without(d3d9())
            })
            &&& r == report(r.steps)
            &&& r.steps.len() == 4
            &&& r.steps[0] == told("INI revert"@, true, "2 file(s) restored from backup"@)
            &&& r.steps[1] == told("LAA revert"@, true, "exe restored"@)
            &&& r.steps[2] == told("DXVK uninstall"@, true, "d3d9.dll restored/removed"@)
            &&& r.steps[3].name == "Game Bar revert"@
            &&& r.steps[3].ok == windows
        }),
{
    let m1 = restored(restored(m, s1_ini()), default_ini());
    let m2 = restored(m1, exe());
    lemma_revert_all(m, windows);
    lemma_both_restored(m);
    lemma_exe_restored(m1);
    lemma_taken_away(m2);
    lemma_game_bar_told(held(uninstall_dxvk_talk(), m2).0, windows);
}

proof fn lemma_exe_restored(m: Machine)
    requires
        m.willing(),
        m.has(exe().backup()),
    ensures
        held(revert_exe_laa_talk(), m).1 == Ok::<StepView, Text>(told("LAA revert"@, true, "exe restored"@)),
{
    lemma_restore(m, exe());
    broadcast use group_held;

}

/// How turning the recording of games on again is told.
proof fn lemma_game_bar_told(m: Machine, windows: bool)
    ensures
        held(enable_game_bar_talk(windows), m).1 matches Ok(s) && s.name == "Game Bar revert"@ && s.ok == windows,
{
    broadcast use group_held;

}

} // verus!
