//! What each step of the optimizer does to the files of a machine.
use vstd::prelude::*;

use crate::ini::file_text;
use crate::machine::{group_held, held, Machine};
use crate::number::{dec, hex_word};
use crate::optimizer::{
    check_dxvk_installed_talk, check_exe_laa_talk, check_game_bar_disabled_talk, check_ini_aggressive_talk,
    check_ini_patched_talk, check_lfh_enabled_talk, check_nvidia_tweaks_talk, get_status_talk, install_dxvk_talk,
    keep_d3d9_talk, patch_exe_laa_talk, place_conf_talk, restore_backup_talk, revert_exe_laa_talk,
    revert_ini_files_talk, uninstall_dxvk_talk,
};
use crate::pe::{law_flag_stands_in_the_header, law_no_flag_without_a_header};
use crate::place::{Location, Place};
use crate::step::StepView;
use crate::text::{holds, Text};
use crate::undo::{lemma_backup_once, same_file};

verus! {

/// The file at a place.
pub open spec fn file_at(place: Place) -> Location {
    Location { place, backup: false }
}

/// The backup of the file at a place.
pub open spec fn backup_at(place: Place) -> Location {
    Location { place, backup: true }
}

/// A step that succeeded, or that was told not to have.
pub open spec fn came_to(name: Text, ok: bool, detail: Text) -> Result<StepView, Text> {
    Ok(StepView { name, ok, detail })
}

/// `b` is a program whose header begins at `p`.
pub open spec fn is_program(b: Seq<u8>, p: u32) -> bool {
    &&& b.len() >= 0x40
    &&& p + 24 <= b.len()
    &&& b[0x3C] == p % 0x100
    &&& b[0x3D] == p / 0x100 % 0x100
    &&& b[0x3E] == p / 0x1_0000 % 0x100
    &&& b[0x3F] == p / 0x100_0000
    &&& b.subrange(p as int, p + 4) == seq![0x50u8, 0x45u8, 0u8, 0u8]
}

/// Setting the flag of the game's program sets one bit in its header, where that was not
/// set, and keeps the program as it was beside it, where no backup was there. No other file
/// changes. It is told how the characteristics changed, or that they did not.
pub proof fn law_program_gets_the_flag(m: Machine, p: u32, l: Location)
    requires
        m.wf(),
        m.willing(),
        m.has(file_at(Place::TeraExe)),
        is_program(m.files[file_at(Place::TeraExe)], p),
    ensures
        ({
            let (after, r) = held(patch_exe_laa_talk(), m);
            let (program, backup) = (file_at(Place::TeraExe), backup_at(Place::TeraExe));
            let b = m.files[program];
            let (low, high) = (b[p + 22], b[p + 23]);
            &&& after.has(program) && after.files[program] == b.update(p + 22, low | 0x20u8)
            &&& after.has(backup) && after.files[backup] == (if m.has(backup) { m.files[backup] } else { b })
            &&& l != program && l != backup ==> same_file(m, after, l)
            &&& low & 0x20u8 != 0 ==> r == came_to("LAA patch"@, true, "Already LAA-aware (no change)"@)
            &&& low & 0x20u8 == 0 ==> r == came_to(
                "LAA patch"@,
                true,
                "Characteristics 0x"@ + hex_word((low + 0x100 * high) as u16) + " -> 0x"@ + hex_word(
                    ((low | 0x20u8) + 0x100 * high) as u16,
                ),
            )
        }),
{
    broadcast use group_held;

    let program = file_at(Place::TeraExe);
    let b = m.files[program];
    lemma_backup_once(m, program);
    law_flag_stands_in_the_header(b, p);
    let low = b[p + 22];
    if low & 0x20u8 != 0 {
        assert(low & 0x20u8 != 0 ==> low | 0x20u8 == low) by (bit_vector);
        assert(b.update(p + 22, low | 0x20u8) =~= b);
    }
}

/// Where there is no program, or what is there is none, nothing but a backup is made, and it
/// is told why.
pub proof fn law_only_a_program_gets_the_flag(m: Machine, p: u32)
    requires
        m.wf(),
        m.willing(),
    ensures
        ({
            let (after, r) = held(patch_exe_laa_talk(), m);
            let program = file_at(Place::TeraExe);
            let b = m.files[program];
            &&& !m.has(program) ==> after == m && r == Err::<StepView, Text>("exe not found: "@ + (m.paths)(program))
            &&& m.has(program) ==> same_file(m, after, program)
                || r is Ok
            &&& m.has(program) && b.len() < 0x40 ==> r == Err::<StepView, Text>("file too small to be a PE"@)
            &&& m.has(program) && b.len() >= 0x40 && b[0x3C] == p % 0x100 && b[0x3D] == p / 0x100 % 0x100 && b[0x3E] == p
                / 0x1_0000 % 0x100 && b[0x3F] == p / 0x100_0000 ==> {
                &&& p + 24 > b.len() ==> r == Err::<StepView, Text>("invalid PE offset"@)
                &&& p + 24 <= b.len() && b.subrange(p as int, p + 4) != seq![0x50u8, 0x45u8, 0u8, 0u8] ==> r == Err::<
                    StepView,
                    Text,
                >("PE signature not found"@)
            }
        }),
{
    broadcast use group_held;

    let program = file_at(Place::TeraExe);
    let b = m.files[program];
    lemma_backup_once(m, program);
    if m.has(program) && b.len() < 0x40 {
        law_no_flag_without_a_header(b, 0);
    } else if m.has(program) && b[0x3C] == p % 0x100 && b[0x3D] == p / 0x100 % 0x100 && b[0x3E] == p / 0x1_0000 % 0x100
        && b[0x3F] == p / 0x100_0000 {
        law_no_flag_without_a_header(b, p);
    }
}

/// Whether the flag of the game's program is set is seen in its header. Without a program it
/// is not.
pub proof fn law_flag_is_looked_up(m: Machine, p: u32)
    requires
        m.wf(),
        m.willing(),
    ensures
        ({
            let program = file_at(Place::TeraExe);
            let b = m.files[program];
            let r = held(check_exe_laa_talk(), m).1;
            &&& !m.has(program) ==> r == Ok::<bool, Text>(false)
            &&& m.has(program) && is_program(b, p) ==> r == Ok::<bool, Text>(b[p + 22] & 0x20u8 != 0)
        }),
{
    broadcast use group_held;

    let b = m.files[file_at(Place::TeraExe)];
    if is_program(b, p) {
        law_flag_stands_in_the_header(b, p);
    }
}

/// Installing DXVK puts its library beside the game, and its settings where there are none
/// yet. A library that was there is kept, unless it has four million bytes or more or a
/// backup is there. No other file changes.
#[verifier::spinoff_prover]
#[verifier::rlimit(30)]
pub proof fn law_library_is_installed(m: Machine, l: Location)
    requires
        m.wf(),
        m.willing(),
        m.folders.contains(Place::Binaries),
        m.has(file_at(Place::DxvkDllSource)),
        m.has(file_at(Place::DxvkConf)) || m.has(file_at(Place::DxvkConfSource)),
        m.has(file_at(Place::D3d9Dll)) ==> m.files[file_at(Place::D3d9Dll)].len() <= u64::MAX,
    ensures
        ({
            let (after, r) = held(install_dxvk_talk(), m);
            let (library, backup) = (file_at(Place::D3d9Dll), backup_at(Place::D3d9Dll));
            let conf = file_at(Place::DxvkConf);
            let keep = m.has(library) && m.files[library].len() < 4_000_000 && !m.has(backup);
            &&& after.has(library) && after.files[library] == m.files[file_at(Place::DxvkDllSource)]
            &&& after.has(conf)
            &&& m.has(conf) ==> after.files[conf] == m.files[conf]
            &&& !m.has(conf) ==> after.files[conf] == m.files[file_at(Place::DxvkConfSource)]
            &&& keep ==> after.has(backup) && after.files[backup] == m.files[library]
            &&& !keep ==> same_file(m, after, backup)
            &&& l != library && l != backup && l != conf ==> same_file(m, after, l)
            &&& r == came_to("DXVK install"@, true, "d3d9.dll -> "@ + (m.paths)(library))
        }),
{
    broadcast use group_held;

    lemma_backup_once(m, file_at(Place::D3d9Dll));
    let kept = held(keep_d3d9_talk(), m);
    assert(kept.1 is Ok);
    let there = kept.0.with(file_at(Place::D3d9Dll), m.files[file_at(Place::DxvkDllSource)]);
    let placed = held(place_conf_talk(), there);
    assert(placed.1 is Ok);
}

/// Without the folder of the game's programs nothing is installed, and it is told so.
pub proof fn law_nothing_is_installed_without_the_folder(m: Machine)
    requires
        m.wf(),
        !m.folders.contains(Place::Binaries),
        !m.has(file_at(Place::Binaries)),
    ensures
        held(install_dxvk_talk(), m) == (
            m,
            Err::<StepView, Text>("Binaries dir not found at "@ + (m.paths)(file_at(Place::Binaries))),
        ),
{
    broadcast use group_held;

}

/// Taking DXVK away brings the library back that was kept, or deletes it where none was. The
/// rest stays, the settings of DXVK and the backup too.
pub proof fn law_library_is_taken_away(m: Machine, l: Location)
    requires
        m.wf(),
        m.willing(),
    ensures
        ({
            let (after, r) = held(uninstall_dxvk_talk(), m);
            let (library, backup) = (file_at(Place::D3d9Dll), backup_at(Place::D3d9Dll));
            &&& l != library ==> same_file(m, after, l)
            &&& !m.has(library) ==> after == m && r == came_to("DXVK uninstall"@, true, "nothing to remove"@)
            &&& m.has(library) ==> r == came_to("DXVK uninstall"@, true, "d3d9.dll restored/removed"@)
            &&& m.has(library) && m.has(backup) ==> after.has(library) && after.files[library] == m.files[backup]
            &&& m.has(library) && !m.has(backup) ==> !after.has(library)
        }),
{
    broadcast use group_held;

}

/// DXVK counts as installed where the library beside the game has more than three million
/// bytes.
pub proof fn law_library_is_looked_up(m: Machine)
    requires
        m.willing(),
        m.has(file_at(Place::D3d9Dll)) ==> m.files[file_at(Place::D3d9Dll)].len() <= u64::MAX,
    ensures
        held(check_dxvk_installed_talk(), m).1 <==> m.has(file_at(Place::D3d9Dll)) && m.files[file_at(
            Place::D3d9Dll,
        )].len() > 3_000_000,
{
    broadcast use group_held;

}

/// The settings count as changed where the engine's settings file can be read and has two of
/// them changed; and so do the further ones.
pub proof fn law_settings_are_looked_up(m: Machine)
    requires
        m.wf(),
        m.willing(),
    ensures
        ({
            let ini = file_at(Place::S1EngineIni);
            let s = file_text(m.files[ini])->Ok_0.0;
            let readable = m.has(ini) && file_text(m.files[ini]) is Ok;
            &&& held(check_ini_patched_talk(), m).1 <==> readable && holds(s, "OneFrameThreadLag=True"@) && holds(
                s,
                "MotionBlur=False"@,
            )
            &&& held(check_ini_aggressive_talk(), m).1 <==> readable && holds(s, "DynamicShadows=False"@) && holds(
                s,
                "SkeletalMeshLODBias=2"@,
            )
        }),
{
    broadcast use group_held;

}

/// The state tells each of the settings as it is looked up by itself.
#[verifier::spinoff_prover]
#[verifier::rlimit(30)]
pub proof fn law_state_tells_each_setting(m: Machine, windows: bool)
    ensures
        ({
            let state = held(get_status_talk(windows), m).1;
            &&& state.ini_patched == held(check_ini_patched_talk(), m).1
            &&& state.ini_aggressive == held(check_ini_aggressive_talk(), m).1
            &&& state.laa_patched <==> held(check_exe_laa_talk(), m).1 == Ok::<bool, Text>(true)
            &&& state.dxvk_installed == held(check_dxvk_installed_talk(), m).1
            &&& state.lfh_enabled == held(check_lfh_enabled_talk(windows), m).1
            &&& state.game_bar_disabled == held(check_game_bar_disabled_talk(windows), m).1
            &&& state.nvidia_tweaks_applied == held(check_nvidia_tweaks_talk(windows), m).1
        }),
{
    broadcast use group_held;

    assert(held(check_ini_patched_talk(), m).0 == m);
    assert(held(check_ini_aggressive_talk(), m).0 == m);
    assert(held(check_exe_laa_talk(), m).0 == m);
    assert(held(check_dxvk_installed_talk(), m).0 == m);
    assert(held(check_lfh_enabled_talk(windows), m).0 == m);
    assert(held(check_game_bar_disabled_talk(windows), m).0 == m);
    assert(held(check_nvidia_tweaks_talk(windows), m).0 == m);
}

/// Reverting puts each backup in the place of its file, where there is one, and changes
/// nothing else; it is told how many settings files that were, and of the program whether
/// there was one.
pub proof fn law_backups_are_put_back(m: Machine, l: Location)
    requires
        m.wf(),
        m.willing(),
    ensures
        ({
            let (after, r) = held(revert_ini_files_talk(), m);
            let (first, second) = (Place::S1EngineIni, Place::DefaultEngineIni);
            let n = (if m.has(backup_at(first)) { 1nat } else { 0nat }) + (if m.has(backup_at(second)) {
                1nat
            } else {
                0nat
            });
            &&& m.has(backup_at(first)) ==> after.has(file_at(first)) && after.files[file_at(first)]
                == m.files[backup_at(first)]
            &&& !m.has(backup_at(first)) ==> same_file(m, after, file_at(first))
            &&& m.has(backup_at(second)) ==> after.has(file_at(second)) && after.files[file_at(second)]
                == m.files[backup_at(second)]
            &&& !m.has(backup_at(second)) ==> same_file(m, after, file_at(second))
            &&& l != file_at(first) && l != file_at(second) ==> same_file(m, after, l)
            &&& r == came_to("INI revert"@, true, dec(n) + " file(s) restored from backup"@)
        }),
        ({
            let (after, r) = held(revert_exe_laa_talk(), m);
            let place = Place::TeraExe;
            &&& m.has(backup_at(place)) ==> {
                &&& after.has(file_at(place)) && after.files[file_at(place)] == m.files[backup_at(place)]
                &&& r == came_to("LAA revert"@, true, "exe restored"@)
            }
            &&& !m.has(backup_at(place)) ==> after == m && r == came_to("LAA revert"@, false, "no backup found"@)
            &&& l != file_at(place) ==> same_file(m, after, l)
        }),
{
    broadcast use group_held;

    let first = held(restore_backup_talk(file_at(Place::S1EngineIni)), m);
    let second = held(restore_backup_talk(file_at(Place::DefaultEngineIni)), first.0);
    assert(first.1 is Ok && second.1 is Ok);
}

} // verus!
