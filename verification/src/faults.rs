//! What is told when the machine does not do what a step asks of it.
use vstd::prelude::*;

use crate::dialogue::{follow, group_sent, Stage};
use crate::host::{ReplyView, RequestView};
use crate::ini::{file_text, PatchView};
use crate::language::{switch_to_english_talk, switch_to_spanish_talk};
use crate::optimizer::{apply_patches_talk, install_dxvk_talk, patch_exe_laa_talk, uninstall_dxvk_talk};
use crate::pe::{laa_set, LaaView};
use crate::place::Location;
use crate::step::StepView;
use crate::text::Text;

verus! {

/// A step that failed, after so many replies.
pub open spec fn fault(message: Text, replies: int) -> Stage<RequestView, Result<StepView, Text>> {
    Stage::Finished(Err(message), replies)
}

/// What goes wrong with a settings file is told: that it is not there, that it cannot be
/// kept, read or written, and where it is.
pub proof fn law_faults_of_a_settings_file(
    l: Location,
    patches: Seq<PatchView>,
    replies: Seq<ReplyView>,
    b: Seq<u8>,
    path: Text,
    e: Text,
)
    requires
        replies.len() >= 5,
    ensures
        ({
            let end = follow(apply_patches_talk(l, patches), replies, 0);
            let told = |m: Text, n: int| end == Stage::<RequestView, Result<nat, Text>>::Finished(Err(m), n);
            let there = replies[0] == ReplyView::Flag(true);
            let kept = there && replies[1] == ReplyView::Flag(true);
            &&& replies[0] == ReplyView::Flag(false) && replies[1] == ReplyView::Text(path) ==> told(
                "file not found: "@ + path,
                2,
            )
            &&& there && replies[1] == ReplyView::Flag(false) && replies[2] == ReplyView::Flag(true) && replies[3]
                == ReplyView::Failed(e) ==> told("backup: "@ + e, 4)
            &&& kept && replies[2] == ReplyView::Failed(e) && replies[3] == ReplyView::Text(path) ==> told(
                "read "@ + path + ": "@ + e,
                4,
            )
            &&& kept && replies[2] == ReplyView::Bytes(b) && file_text(b) is Err ==> told(file_text(b)->Err_0, 3)
            &&& kept && replies[2] == ReplyView::Bytes(b) && file_text(b) is Ok && replies[3] == ReplyView::Failed(e)
                && replies[4] == ReplyView::Text(path) ==> told("write "@ + path + ": "@ + e, 5)
        }),
{
    broadcast use group_sent;

    reveal_with_fuel(follow, 3);
    let end = follow(apply_patches_talk(l, patches), replies, 0);
    let told = |m: Text, n: int| end == Stage::<RequestView, Result<nat, Text>>::Finished(Err(m), n);
    if replies[0] == ReplyView::Flag(false) && replies[1] == ReplyView::Text(path) {
        assert(told("file not found: "@ + path, 2));
    }
    if replies[0] == ReplyView::Flag(true) {
        if replies[1] == ReplyView::Flag(false) && replies[2] == ReplyView::Flag(true) && replies[3] == ReplyView::Failed(
            e,
        ) {
            assert(told("backup: "@ + e, 4));
        } else if replies[1] == ReplyView::Flag(true) {
            if replies[2] == ReplyView::Failed(e) && replies[3] == ReplyView::Text(path) {
                assert(told("read "@ + path + ": "@ + e, 4));
            } else if replies[2] == ReplyView::Bytes(b) {
                if file_text(b) is Err {
                    assert(told(file_text(b)->Err_0, 3));
                } else if replies[3] == ReplyView::Failed(e) && replies[4] == ReplyView::Text(path) {
                    assert(told("write "@ + path + ": "@ + e, 5));
                }
            }
        }
    }
}

/// What goes wrong with the game's program is told: that it cannot be kept, read or written.
pub proof fn law_faults_of_the_program(replies: Seq<ReplyView>, b: Seq<u8>, e: Text)
    requires
        replies.len() >= 4,
        replies[0] == ReplyView::Flag(true),
    ensures
        ({
            let end = follow(patch_exe_laa_talk(), replies, 0);
            let kept = replies[1] == ReplyView::Flag(true);
            &&& replies[1] == ReplyView::Flag(false) && replies[2] == ReplyView::Flag(true) && replies[3]
                == ReplyView::Failed(e) ==> end == fault("backup: "@ + e, 4)
            &&& kept && replies[2] == ReplyView::Failed(e) ==> end == fault("read exe: "@ + e, 3)
            &&& kept && replies[2] == ReplyView::Bytes(b) && (laa_set(b) matches Ok(LaaView::Changed { .. }))
                && replies[3] == ReplyView::Failed(e) ==> end == fault("write exe: "@ + e, 4)
        }),
{
    broadcast use group_sent;

    reveal_with_fuel(follow, 3);
    let end = follow(patch_exe_laa_talk(), replies, 0);
    if replies[1] == ReplyView::Flag(false) && replies[2] == ReplyView::Flag(true) && replies[3] == ReplyView::Failed(e) {
        assert(end == fault("backup: "@ + e, 4));
    } else if replies[1] == ReplyView::Flag(true) {
        if replies[2] == ReplyView::Failed(e) {
            assert(end == fault("read exe: "@ + e, 3));
        } else if replies[2] == ReplyView::Bytes(b) && (laa_set(b) matches Ok(LaaView::Changed { .. })) && replies[3]
            == ReplyView::Failed(e) {
            assert(end == fault("write exe: "@ + e, 4));
        }
    }
}

/// What goes wrong with the graphics library is told: that its size is not known, that it
/// cannot be kept or put in place, nor its settings, nor taken away.
pub proof fn law_faults_of_the_library(replies: Seq<ReplyView>, n: u64, e: Text)
    requires
        replies.len() >= 6,
        replies[0] == ReplyView::Flag(true),
    ensures
        ({
            let end = follow(install_dxvk_talk(), replies, 0);
            let there = replies[1] == ReplyView::Flag(true);
            let none = replies[1] == ReplyView::Flag(false);
            &&& there && replies[2] == ReplyView::Failed(e) ==> end == fault(e, 3)
            &&& there && replies[2] == ReplyView::Size(n) && n < 4_000_000 && replies[3] == ReplyView::Flag(false)
                && replies[4] == ReplyView::Flag(true) && replies[5] == ReplyView::Failed(e) ==> end == fault(
                "backup: "@ + e,
                6,
            )
            &&& there && replies[2] == ReplyView::Size(n) && n >= 4_000_000 && replies[3] == ReplyView::Failed(e)
                ==> end == fault("copy d3d9.dll: "@ + e, 4)
            &&& none && replies[2] == ReplyView::Failed(e) ==> end == fault("copy d3d9.dll: "@ + e, 3)
            &&& none && replies[2] == ReplyView::Done && replies[3] == ReplyView::Flag(false) && replies[4]
                == ReplyView::Failed(e) ==> end == fault("copy dxvk.conf: "@ + e, 5)
        }),
        ({
            let end = follow(uninstall_dxvk_talk(), replies, 0);
            &&& replies[1] == ReplyView::Flag(true) && replies[2] == ReplyView::Failed(e) ==> end == fault(
                "restore: "@ + e,
                3,
            )
            &&& replies[1] == ReplyView::Flag(false) && replies[2] == ReplyView::Failed(e) ==> end == fault(
                "remove d3d9: "@ + e,
                3,
            )
        }),
{
    broadcast use group_sent;

    reveal_with_fuel(follow, 3);
    let end = follow(install_dxvk_talk(), replies, 0);
    if replies[1] == ReplyView::Flag(true) {
        if replies[2] == ReplyView::Failed(e) {
            assert(end == fault(e, 3));
        } else if replies[2] == ReplyView::Size(n) {
            if n < 4_000_000 && replies[3] == ReplyView::Flag(false) && replies[4] == ReplyView::Flag(true)
                && replies[5] == ReplyView::Failed(e) {
                assert(end == fault("backup: "@ + e, 6));
            } else if n >= 4_000_000 && replies[3] == ReplyView::Failed(e) {
                assert(end == fault("copy d3d9.dll: "@ + e, 4));
            }
        }
    } else if replies[1] == ReplyView::Flag(false) {
        if replies[2] == ReplyView::Failed(e) {
            assert(end == fault("copy d3d9.dll: "@ + e, 3));
        } else if replies[2] == ReplyView::Done && replies[3] == ReplyView::Flag(false) && replies[4]
            == ReplyView::Failed(e) {
            assert(end == fault("copy dxvk.conf: "@ + e, 5));
        }
    }
    let gone = follow(uninstall_dxvk_talk(), replies, 0);
    if replies[2] == ReplyView::Failed(e) {
        if replies[1] == ReplyView::Flag(true) {
            assert(gone == fault("restore: "@ + e, 3));
        } else if replies[1] == ReplyView::Flag(false) {
            assert(gone == fault("remove d3d9: "@ + e, 3));
        }
    }
}

/// What goes wrong with the texts is told: that the English ones cannot be kept or put back,
/// that the Spanish ones cannot be put in place, and that the mark cannot be left.
pub proof fn law_faults_of_the_texts(replies: Seq<ReplyView>, e: Text)
    requires
        replies.len() >= 6,
        replies[0] == ReplyView::Flag(true),
    ensures
        ({
            let end = follow(switch_to_spanish_talk(), replies, 0);
            let ready = replies[1] == ReplyView::Flag(true);
            let kept = ready && replies[2] == ReplyView::Flag(true);
            &&& ready && replies[2] == ReplyView::Flag(false) && replies[3] == ReplyView::Flag(false) && replies[4]
                == ReplyView::Flag(true) && replies[5] == ReplyView::Failed(e) ==> end == fault("Backup failed: "@ + e, 6)
            &&& kept && replies[3] == ReplyView::Failed(e) ==> end == fault("Copy Spanish failed: "@ + e, 4)
            &&& kept && replies[3] == ReplyView::Done && replies[4] == ReplyView::Failed(e) ==> end == fault(
                "Sentinel write failed: "@ + e,
                5,
            )
        }),
        replies[1] == ReplyView::Failed(e) ==> follow(switch_to_english_talk(), replies, 0) == fault(
            "Restore failed: "@ + e,
            2,
        ),
{
    broadcast use group_sent;

    reveal_with_fuel(follow, 3);
    let end = follow(switch_to_spanish_talk(), replies, 0);
    if replies[1] == ReplyView::Flag(true) {
        if replies[2] == ReplyView::Flag(false) && replies[3] == ReplyView::Flag(false) && replies[4] == ReplyView::Flag(
            true,
        ) && replies[5] == ReplyView::Failed(e) {
            assert(end == fault("Backup failed: "@ + e, 6));
        } else if replies[2] == ReplyView::Flag(true) {
            if replies[3] == ReplyView::Failed(e) {
                assert(end == fault("Copy Spanish failed: "@ + e, 4));
            } else if replies[3] == ReplyView::Done && replies[4] == ReplyView::Failed(e) {
                assert(end == fault("Sentinel write failed: "@ + e, 5));
            }
        }
    }
    if replies[1] == ReplyView::Failed(e) {
        assert(follow(switch_to_english_talk(), replies, 0) == fault("Restore failed: "@ + e, 2));
    }
}

} // verus!
