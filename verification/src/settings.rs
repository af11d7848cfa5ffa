//! That the settings which were changed are found changed.
use vstd::prelude::*;

use crate::ini::{
    default_engine, file_text, law_text_is_read_back, patched, s1_engine, s1_engine_extra, text_file, PatchView,
};
use crate::machine::{group_held, held, Machine};
use crate::number::dec;
use crate::optimizer::{
    apply_patches_talk, backup_once_talk, check_ini_aggressive_talk, check_ini_patched_talk, default_ini,
    patch_ini_aggressive_talk, patch_ini_files_talk, s1_ini, settings_hold_talk,
};
use crate::patterns::{
    law_replacements_are_counted, lemma_base_changed, lemma_extra_changed, lemma_extra_leaves, lemma_lists_turned,
    standing, turned,
};
use crate::place::{Location, Place};
use crate::step::StepView;
use crate::text::{holds, Text};
use crate::undo::{lemma_apply_patches_changes, lemma_backup_once};

verus! {

/// What a settings file that was changed by replacements holds then, and that it can be
/// read and has a backup.
pub proof fn lemma_file_patched(m: Machine, l: Location, patches: Seq<PatchView>)
    requires
        m.wf(),
        m.willing(),
        l == s1_ini() || l == default_ini(),
        held(apply_patches_talk(l, patches), m).1 is Ok,
    ensures
        ({
            let after = held(apply_patches_talk(l, patches), m).0;
            let was = file_text(m.files[l]);
            let made = patched(was->Ok_0.0, patches, patches.len() as int);
            &&& m.has(l)
            &&& was is Ok
            &&& after.has(l)
            &&& after.has(l.backup())
            &&& after.wf()
            &&& after.willing()
            &&& after.files[l] == text_file(made, was->Ok_0.1)
            &&& file_text(after.files[l]) == Ok::<(Text, bool), Text>((made, was->Ok_0.1))
        }),
{
    broadcast use group_held;

    lemma_backup_once(m, l);
    let mid = held(backup_once_talk(l), m).0;
    if let Ok((s, utf16)) = file_text(m.files[l]) {
        law_text_is_read_back(patched(s, patches, patches.len() as int), utf16);
    }
}

/// A settings file that can be read is searched.
pub proof fn lemma_settings_found(m: Machine, a: Text, b: Text)
    requires
        m.wf(),
        m.willing(),
        m.has(s1_ini()),
        file_text(m.files[s1_ini()]) is Ok,
    ensures
        held(settings_hold_talk(a, b), m).1 == (holds(file_text(m.files[s1_ini()])->Ok_0.0, a) && holds(
            file_text(m.files[s1_ini()])->Ok_0.0,
            b,
        )),
{
    broadcast use group_held;

}

/// Whether a setting stands in the engine's settings file, with either value.
pub open spec fn has_setting(m: Machine, a: Text, b: Text) -> bool {
    let s = file_text(m.files[s1_ini()])->Ok_0.0;
    holds(s, a) || holds(s, b)
}

/// What changing the settings that cost frames does to the engine's settings file.
pub proof fn lemma_base_patched(m: Machine)
    requires
        m.wf(),
        m.willing(),
        held(patch_ini_files_talk(), m).1 is Ok,
    ensures
        ({
            let after = held(patch_ini_files_talk(), m).0;
            let was = file_text(m.files[s1_ini()]);
            &&& m.has(s1_ini())
            &&& was is Ok
            &&& after.wf()
            &&& after.willing()
            &&& after.has(s1_ini())
            &&& file_text(after.files[s1_ini()]) == Ok::<(Text, bool), Text>(
                (patched(was->Ok_0.0, s1_engine(), s1_engine().len() as int), was->Ok_0.1),
            )
        }),
{
    let made = held(apply_patches_talk(s1_ini(), s1_engine()), m);
    let done = held(apply_patches_talk(default_ini(), default_engine()), made.0);
    assert(made.1 is Ok && held(patch_ini_files_talk(), m).0 == done.0) by {
        broadcast use group_held;

    }
    lemma_file_patched(m, s1_ini(), s1_engine());
    lemma_apply_patches_changes(default_ini(), default_engine(), made.0, s1_ini());
    lemma_apply_patches_refuses(default_ini(), default_engine(), made.0);
}

/// Once the settings that cost frames were changed they are found changed, where
/// the file had the two that are looked for, with either value.
pub proof fn law_changed_settings_are_found(m: Machine)
    requires
        m.wf(),
        m.willing(),
        held(patch_ini_files_talk(), m).1 is Ok,
        has_setting(m, "OneFrameThreadLag=False"@, "OneFrameThreadLag=True"@),
        has_setting(m, "MotionBlur=True"@, "MotionBlur=False"@),
    ensures
        held(check_ini_patched_talk(), held(patch_ini_files_talk(), m).0).1,
{
    lemma_base_patched(m);
    lemma_base_changed(file_text(m.files[s1_ini()])->Ok_0.0);
    lemma_settings_found(held(patch_ini_files_talk(), m).0, "OneFrameThreadLag=True"@, "MotionBlur=False"@);
}

/// Replacements leave a machine as willing as it is.
pub proof fn lemma_apply_patches_refuses(target: Location, patches: Seq<PatchView>, m: Machine)
    ensures
        ({
            let after = held(apply_patches_talk(target, patches), m).0;
            after.refuses == m.refuses && after.folders == m.folders
        }),
{
    broadcast use group_held;

}

/// Once the further settings were changed they are found changed, where the file had
/// the two that are looked for, with either value.
pub proof fn law_further_settings_are_found(m: Machine)
    requires
        m.wf(),
        m.willing(),
        held(patch_ini_aggressive_talk(), m).1 is Ok,
        has_setting(m, "DynamicShadows=True"@, "DynamicShadows=False"@),
        has_setting(m, "SkeletalMeshLODBias=0"@, "SkeletalMeshLODBias=2"@),
    ensures
        held(check_ini_aggressive_talk(), held(patch_ini_aggressive_talk(), m).0).1,
{
    lemma_aggressive_is_patching(m);
    lemma_file_patched(m, s1_ini(), s1_engine_extra());
    lemma_extra_changed(file_text(m.files[s1_ini()])->Ok_0.0);
    lemma_settings_found(
        held(patch_ini_aggressive_talk(), m).0,
        "DynamicShadows=False"@,
        "SkeletalMeshLODBias=2"@,
    );
}

/// What changing the further settings does to the machine.
pub proof fn lemma_aggressive_is_patching(m: Machine)
    ensures
        ({
            let made = held(apply_patches_talk(s1_ini(), s1_engine_extra()), m);
            let r = held(patch_ini_aggressive_talk(), m);
            r.0 == made.0 && (r.1 is Ok <==> made.1 is Ok)
        }),
{
    broadcast use group_held;

}

/// Changing the further settings leaves those that cost frames as they were changed.
pub proof fn law_further_settings_build_on_the_first(m: Machine)
    requires
        m.wf(),
        m.willing(),
        held(patch_ini_aggressive_talk(), m).1 is Ok,
        held(check_ini_patched_talk(), m).1,
    ensures
        held(check_ini_patched_talk(), held(patch_ini_aggressive_talk(), m).0).1,
{
    lemma_aggressive_is_patching(m);
    let p = s1_engine_extra();
    lemma_file_patched(m, s1_ini(), p);
    let a = "OneFrameThreadLag=True"@;
    let b = "MotionBlur=False"@;
    lemma_settings_found(m, a, b);
    let s = file_text(m.files[s1_ini()])->Ok_0.0;
    lemma_extra_leaves(s, a);
    lemma_extra_leaves(s, b);
    lemma_settings_found(held(patch_ini_aggressive_talk(), m).0, a, b);
}

/// One of the settings that cost frames stands in `s`.
pub open spec fn has_costly_setting(s: Text) -> bool {
    ||| holds(s, "bSmoothFrameRate=TRUE"@)
    ||| holds(s, "OneFrameThreadLag=False"@)
    ||| holds(s, "MotionBlur=True"@)
    ||| holds(s, "DepthOfField=True"@)
    ||| holds(s, "AmbientOcclusion=True"@)
    ||| holds(s, "UseHighQualityBloom=True"@)
    ||| holds(s, "Distortion=True"@)
    ||| holds(s, "FogVolumes=True"@)
    ||| holds(s, "LensFlares=True"@)
    ||| holds(s, "FXAA=True"@)
    ||| holds(s, "MaxShadowResolution=2048"@)
    ||| holds(s, "FoliageDrawRadiusMultiplier=1.050000"@)
    ||| holds(s, "TimeBetweenPurgingPendingKillObjects=120"@)
    ||| holds(s, "MaxObjectsNotConsideredByGC=0"@)
    ||| holds(s, "SizeOfPermanentObjectPool=0"@)
    ||| holds(s, "PoolSize=2048"@)
    ||| holds(s, "HysteresisLimit=30"@)
    ||| holds(s, "FudgeFactorDecreaseRateOfChange=-0.4"@)
}

/// The replacements turn each of the settings that cost frames.
proof fn lemma_costly_setting_turned(s: Text, made: Text)
    requires
        turned(s, made, s1_engine()),
    ensures
        !has_costly_setting(made),
        !has_costly_setting(s) ==> made == s,
        holds(s, "bSmoothFrameRate=TRUE"@) || holds(s, "bSmoothFrameRate=FALSE"@) ==> holds(made, "bSmoothFrameRate=FALSE"@),
        holds(s, "OneFrameThreadLag=False"@) || holds(s, "OneFrameThreadLag=True"@) ==> holds(made, "OneFrameThreadLag=True"@),
        holds(s, "MotionBlur=True"@) || holds(s, "MotionBlur=False"@) ==> holds(made, "MotionBlur=False"@),
        holds(s, "DepthOfField=True"@) || holds(s, "DepthOfField=False"@) ==> holds(made, "DepthOfField=False"@),
        holds(s, "AmbientOcclusion=True"@) || holds(s, "AmbientOcclusion=False"@) ==> holds(made, "AmbientOcclusion=False"@),
        holds(s, "UseHighQualityBloom=True"@) || holds(s, "UseHighQualityBloom=False"@) ==> holds(made, "UseHighQualityBloom=False"@),
        holds(s, "Distortion=True"@) || holds(s, "Distortion=False"@) ==> holds(made, "Distortion=False"@),
        holds(s, "FogVolumes=True"@) || holds(s, "FogVolumes=False"@) ==> holds(made, "FogVolumes=False"@),
        holds(s, "LensFlares=True"@) || holds(s, "LensFlares=False"@) ==> holds(made, "LensFlares=False"@),
        holds(s, "FXAA=True"@) || holds(s, "FXAA=False"@) ==> holds(made, "FXAA=False"@),
        holds(s, "MaxShadowResolution=2048"@) || holds(s, "MaxShadowResolution=1024"@) ==> holds(made, "MaxShadowResolution=1024"@),
        holds(s, "FoliageDrawRadiusMultiplier=1.050000"@) || holds(s, "FoliageDrawRadiusMultiplier=0.700000"@) ==> holds(made, "FoliageDrawRadiusMultiplier=0.700000"@),
        holds(s, "TimeBetweenPurgingPendingKillObjects=120"@) || holds(s, "TimeBetweenPurgingPendingKillObjects=300"@) ==> holds(made, "TimeBetweenPurgingPendingKillObjects=300"@),
        holds(s, "MaxObjectsNotConsideredByGC=0"@) || holds(s, "MaxObjectsNotConsideredByGC=500000"@) ==> holds(made, "MaxObjectsNotConsideredByGC=500000"@),
        holds(s, "SizeOfPermanentObjectPool=0"@) || holds(s, "SizeOfPermanentObjectPool=16777216"@) ==> holds(made, "SizeOfPermanentObjectPool=16777216"@),
        holds(s, "PoolSize=2048"@) || holds(s, "PoolSize=3072"@) ==> holds(made, "PoolSize=3072"@),
        holds(s, "HysteresisLimit=30"@) || holds(s, "HysteresisLimit=50"@) ==> holds(made, "HysteresisLimit=50"@),
        holds(s, "FudgeFactorDecreaseRateOfChange=-0.4"@) || holds(s, "FudgeFactorDecreaseRateOfChange=-0.8"@) ==> holds(made, "FudgeFactorDecreaseRateOfChange=-0.8"@),
{
    let p = s1_engine();
    assert(p.len() == 18);
    assert(p[0].from == "bSmoothFrameRate=TRUE"@ && p[0].to == "bSmoothFrameRate=FALSE"@);
    assert(p[1].from == "OneFrameThreadLag=False"@ && p[1].to == "OneFrameThreadLag=True"@);
    assert(p[2].from == "MotionBlur=True"@ && p[2].to == "MotionBlur=False"@);
    assert(p[3].from == "DepthOfField=True"@ && p[3].to == "DepthOfField=False"@);
    assert(p[4].from == "AmbientOcclusion=True"@ && p[4].to == "AmbientOcclusion=False"@);
    assert(p[5].from == "UseHighQualityBloom=True"@ && p[5].to == "UseHighQualityBloom=False"@);
    assert(p[6].from == "Distortion=True"@ && p[6].to == "Distortion=False"@);
    assert(p[7].from == "FogVolumes=True"@ && p[7].to == "FogVolumes=False"@);
    assert(p[8].from == "LensFlares=True"@ && p[8].to == "LensFlares=False"@);
    assert(p[9].from == "FXAA=True"@ && p[9].to == "FXAA=False"@);
    assert(p[10].from == "MaxShadowResolution=2048"@ && p[10].to == "MaxShadowResolution=1024"@);
    assert(p[11].from == "FoliageDrawRadiusMultiplier=1.050000"@ && p[11].to == "FoliageDrawRadiusMultiplier=0.700000"@);
    assert(p[12].from == "TimeBetweenPurgingPendingKillObjects=120"@ && p[12].to == "TimeBetweenPurgingPendingKillObjects=300"@);
    assert(p[13].from == "MaxObjectsNotConsideredByGC=0"@ && p[13].to == "MaxObjectsNotConsideredByGC=500000"@);
    assert(p[14].from == "SizeOfPermanentObjectPool=0"@ && p[14].to == "SizeOfPermanentObjectPool=16777216"@);
    assert(p[15].from == "PoolSize=2048"@ && p[15].to == "PoolSize=3072"@);
    assert(p[16].from == "HysteresisLimit=30"@ && p[16].to == "HysteresisLimit=50"@);
    assert(p[17].from == "FudgeFactorDecreaseRateOfChange=-0.4"@ && p[17].to == "FudgeFactorDecreaseRateOfChange=-0.8"@);
    if !has_costly_setting(s) {
        assert forall|i: int| 0 <= i < p.len() implies !holds(s, (#[trigger] p[i]).from) by {
            assert(0 <= i < 18);
        }
    }
}

/// One of the settings that cost frames by default stands in `s`.
pub open spec fn has_default_setting(s: Text) -> bool {
    ||| holds(s, "bSmoothFrameRate=TRUE"@)
    ||| holds(s, "MaxSmoothedFrameRate=80"@)
    ||| holds(s, "AmbientOcclusion=True"@)
}

/// The replacements turn each of the settings that cost frames by default.
proof fn lemma_default_setting_turned(s: Text, made: Text)
    requires
        turned(s, made, default_engine()),
    ensures
        !has_default_setting(made),
        !has_default_setting(s) ==> made == s,
        holds(s, "bSmoothFrameRate=TRUE"@) || holds(s, "bSmoothFrameRate=FALSE"@) ==> holds(made, "bSmoothFrameRate=FALSE"@),
        holds(s, "MaxSmoothedFrameRate=80"@) || holds(s, "MaxSmoothedFrameRate=300"@) ==> holds(made, "MaxSmoothedFrameRate=300"@),
        holds(s, "AmbientOcclusion=True"@) || holds(s, "AmbientOcclusion=False"@) ==> holds(made, "AmbientOcclusion=False"@),
{
    let p = default_engine();
    assert(p.len() == 3);
    assert(p[0].from == "bSmoothFrameRate=TRUE"@ && p[0].to == "bSmoothFrameRate=FALSE"@);
    assert(p[1].from == "MaxSmoothedFrameRate=80"@ && p[1].to == "MaxSmoothedFrameRate=300"@);
    assert(p[2].from == "AmbientOcclusion=True"@ && p[2].to == "AmbientOcclusion=False"@);
    if !has_default_setting(s) {
        assert forall|i: int| 0 <= i < p.len() implies !holds(s, (#[trigger] p[i]).from) by {
            assert(0 <= i < 3);
        }
    }
}

/// One of the settings that can be changed further stands in `s`.
pub open spec fn has_further_setting(s: Text) -> bool {
    ||| holds(s, "PoolSize=3072"@)
    ||| holds(s, "MaxShadowResolution=1024"@)
    ||| holds(s, "DynamicShadows=True"@)
    ||| holds(s, "bAllowWholeSceneDominantShadows=True"@)
    ||| holds(s, "bEnableForegroundShadowsOnWorld=True"@)
    ||| holds(s, "bEnableForegroundSelfShadowing=True"@)
    ||| holds(s, "SkeletalMeshLODBias=0"@)
    ||| holds(s, "ParticleLODBias=0"@)
    ||| holds(s, "SpeedTreeLODBias=0"@)
    ||| holds(s, "DetailMode=2"@)
    ||| holds(s, "MaxAnisotropy=16"@)
    ||| holds(s, "MaxAnisotropy=8"@)
    ||| holds(s, "MaxMultiSamples=4"@)
    ||| holds(s, "MaxMultiSamples=2"@)
    ||| holds(s, "FoliageDrawRadiusMultiplier=0.700000"@)
    ||| holds(s, "bInitializeShadersOnDemand=False"@)
    ||| holds(s, "bForceCPUAccessToGPUSkinVerts=True"@)
    ||| holds(s, "TranslucencyVolumeBlur=True"@)
    ||| holds(s, "AllowSubsurfaceScattering=True"@)
    ||| holds(s, "Bloom=True"@)
    ||| holds(s, "LightShafts=True"@)
    ||| holds(s, "ShadowFilterQualityBias=0"@)
}

/// The replacements turn each of the settings that can be changed further.
proof fn lemma_further_setting_turned(s: Text, made: Text)
    requires
        turned(s, made, s1_engine_extra()),
    ensures
        !has_further_setting(made),
        !has_further_setting(s) ==> made == s,
        holds(s, "PoolSize=3072"@) || holds(s, "PoolSize=4096"@) ==> holds(made, "PoolSize=4096"@),
        holds(s, "MaxShadowResolution=1024"@) || holds(s, "MaxShadowResolution=512"@) ==> holds(made, "MaxShadowResolution=512"@),
        holds(s, "DynamicShadows=True"@) || holds(s, "DynamicShadows=False"@) ==> holds(made, "DynamicShadows=False"@),
        holds(s, "bAllowWholeSceneDominantShadows=True"@) || holds(s, "bAllowWholeSceneDominantShadows=False"@) ==> holds(made, "bAllowWholeSceneDominantShadows=False"@),
        holds(s, "bEnableForegroundShadowsOnWorld=True"@) || holds(s, "bEnableForegroundShadowsOnWorld=False"@) ==> holds(made, "bEnableForegroundShadowsOnWorld=False"@),
        holds(s, "bEnableForegroundSelfShadowing=True"@) || holds(s, "bEnableForegroundSelfShadowing=False"@) ==> holds(made, "bEnableForegroundSelfShadowing=False"@),
        holds(s, "SkeletalMeshLODBias=0"@) || holds(s, "SkeletalMeshLODBias=2"@) ==> holds(made, "SkeletalMeshLODBias=2"@),
        holds(s, "ParticleLODBias=0"@) || holds(s, "ParticleLODBias=2"@) ==> holds(made, "ParticleLODBias=2"@),
        holds(s, "SpeedTreeLODBias=0"@) || holds(s, "SpeedTreeLODBias=2"@) ==> holds(made, "SpeedTreeLODBias=2"@),
        holds(s, "DetailMode=2"@) || holds(s, "DetailMode=1"@) ==> holds(made, "DetailMode=1"@),
        holds(s, "MaxAnisotropy=16"@) || holds(s, "MaxAnisotropy=4"@) ==> holds(made, "MaxAnisotropy=4"@),
        holds(s, "MaxAnisotropy=8"@) || holds(s, "MaxAnisotropy=4"@) ==> holds(made, "MaxAnisotropy=4"@),
        holds(s, "MaxMultiSamples=4"@) || holds(s, "MaxMultiSamples=1"@) ==> holds(made, "MaxMultiSamples=1"@),
        holds(s, "MaxMultiSamples=2"@) || holds(s, "MaxMultiSamples=1"@) ==> holds(made, "MaxMultiSamples=1"@),
        holds(s, "FoliageDrawRadiusMultiplier=0.700000"@) || holds(s, "FoliageDrawRadiusMultiplier=0.500000"@) ==> holds(made, "FoliageDrawRadiusMultiplier=0.500000"@),
        holds(s, "bInitializeShadersOnDemand=False"@) || holds(s, "bInitializeShadersOnDemand=True"@) ==> holds(made, "bInitializeShadersOnDemand=True"@),
        holds(s, "bForceCPUAccessToGPUSkinVerts=True"@) || holds(s, "bForceCPUAccessToGPUSkinVerts=False"@) ==> holds(made, "bForceCPUAccessToGPUSkinVerts=False"@),
        holds(s, "TranslucencyVolumeBlur=True"@) || holds(s, "TranslucencyVolumeBlur=False"@) ==> holds(made, "TranslucencyVolumeBlur=False"@),
        holds(s, "AllowSubsurfaceScattering=True"@) || holds(s, "AllowSubsurfaceScattering=False"@) ==> holds(made, "AllowSubsurfaceScattering=False"@),
        holds(s, "Bloom=True"@) || holds(s, "Bloom=False"@) ==> holds(made, "Bloom=False"@),
        holds(s, "LightShafts=True"@) || holds(s, "LightShafts=False"@) ==> holds(made, "LightShafts=False"@),
        holds(s, "ShadowFilterQualityBias=0"@) || holds(s, "ShadowFilterQualityBias=-1"@) ==> holds(made, "ShadowFilterQualityBias=-1"@),
{
    let p = s1_engine_extra();
    assert(p.len() == 22);
    assert(p[0].from == "PoolSize=3072"@ && p[0].to == "PoolSize=4096"@);
    assert(p[1].from == "MaxShadowResolution=1024"@ && p[1].to == "MaxShadowResolution=512"@);
    assert(p[2].from == "DynamicShadows=True"@ && p[2].to == "DynamicShadows=False"@);
    assert(p[3].from == "bAllowWholeSceneDominantShadows=True"@ && p[3].to == "bAllowWholeSceneDominantShadows=False"@);
    assert(p[4].from == "bEnableForegroundShadowsOnWorld=True"@ && p[4].to == "bEnableForegroundShadowsOnWorld=False"@);
    assert(p[5].from == "bEnableForegroundSelfShadowing=True"@ && p[5].to == "bEnableForegroundSelfShadowing=False"@);
    assert(p[6].from == "SkeletalMeshLODBias=0"@ && p[6].to == "SkeletalMeshLODBias=2"@);
    assert(p[7].from == "ParticleLODBias=0"@ && p[7].to == "ParticleLODBias=2"@);
    assert(p[8].from == "SpeedTreeLODBias=0"@ && p[8].to == "SpeedTreeLODBias=2"@);
    assert(p[9].from == "DetailMode=2"@ && p[9].to == "DetailMode=1"@);
    assert(p[10].from == "MaxAnisotropy=16"@ && p[10].to == "MaxAnisotropy=4"@);
    assert(p[11].from == "MaxAnisotropy=8"@ && p[11].to == "MaxAnisotropy=4"@);
    assert(p[12].from == "MaxMultiSamples=4"@ && p[12].to == "MaxMultiSamples=1"@);
    assert(p[13].from == "MaxMultiSamples=2"@ && p[13].to == "MaxMultiSamples=1"@);
    assert(p[14].from == "FoliageDrawRadiusMultiplier=0.700000"@ && p[14].to == "FoliageDrawRadiusMultiplier=0.500000"@);
    assert(p[15].from == "bInitializeShadersOnDemand=False"@ && p[15].to == "bInitializeShadersOnDemand=True"@);
    assert(p[16].from == "bForceCPUAccessToGPUSkinVerts=True"@ && p[16].to == "bForceCPUAccessToGPUSkinVerts=False"@);
    assert(p[17].from == "TranslucencyVolumeBlur=True"@ && p[17].to == "TranslucencyVolumeBlur=False"@);
    assert(p[18].from == "AllowSubsurfaceScattering=True"@ && p[18].to == "AllowSubsurfaceScattering=False"@);
    assert(p[19].from == "Bloom=True"@ && p[19].to == "Bloom=False"@);
    assert(p[20].from == "LightShafts=True"@ && p[20].to == "LightShafts=False"@);
    assert(p[21].from == "ShadowFilterQualityBias=0"@ && p[21].to == "ShadowFilterQualityBias=-1"@);
    if !has_further_setting(s) {
        assert forall|i: int| 0 <= i < p.len() implies !holds(s, (#[trigger] p[i]).from) by {
            assert(0 <= i < 22);
        }
    }
}

/// Once the settings that cost frames were changed, on a machine that refuses nothing,
/// the engine's settings file holds none of them any more. Where it held one, or had it
/// changed already, it holds what that is changed to; and where it held none of them its
/// text is as it was.
pub proof fn law_costly_settings_are_gone(m: Machine)
    requires
        m.wf(),
        m.willing(),
        held(patch_ini_files_talk(), m).1 is Ok,
    ensures
        ({
            let after = held(patch_ini_files_talk(), m).0;
            let was = file_text(m.files[s1_ini()])->Ok_0.0;
            let now = file_text(after.files[s1_ini()])->Ok_0.0;
            &&& m.has(s1_ini()) && file_text(m.files[s1_ini()]) is Ok
            &&& after.has(s1_ini()) && file_text(after.files[s1_ini()]) is Ok
            &&& file_text(after.files[s1_ini()])->Ok_0.1 == file_text(m.files[s1_ini()])->Ok_0.1
            &&& !has_costly_setting(now)
            &&& !has_costly_setting(was) ==> now == was
            &&& holds(was, "bSmoothFrameRate=TRUE"@) || holds(was, "bSmoothFrameRate=FALSE"@) ==> holds(now, "bSmoothFrameRate=FALSE"@)
            &&& holds(was, "OneFrameThreadLag=False"@) || holds(was, "OneFrameThreadLag=True"@) ==> holds(now, "OneFrameThreadLag=True"@)
            &&& holds(was, "MotionBlur=True"@) || holds(was, "MotionBlur=False"@) ==> holds(now, "MotionBlur=False"@)
            &&& holds(was, "DepthOfField=True"@) || holds(was, "DepthOfField=False"@) ==> holds(now, "DepthOfField=False"@)
            &&& holds(was, "AmbientOcclusion=True"@) || holds(was, "AmbientOcclusion=False"@) ==> holds(now, "AmbientOcclusion=False"@)
            &&& holds(was, "UseHighQualityBloom=True"@) || holds(was, "UseHighQualityBloom=False"@) ==> holds(now, "UseHighQualityBloom=False"@)
            &&& holds(was, "Distortion=True"@) || holds(was, "Distortion=False"@) ==> holds(now, "Distortion=False"@)
            &&& holds(was, "FogVolumes=True"@) || holds(was, "FogVolumes=False"@) ==> holds(now, "FogVolumes=False"@)
            &&& holds(was, "LensFlares=True"@) || holds(was, "LensFlares=False"@) ==> holds(now, "LensFlares=False"@)
            &&& holds(was, "FXAA=True"@) || holds(was, "FXAA=False"@) ==> holds(now, "FXAA=False"@)
            &&& holds(was, "MaxShadowResolution=2048"@) || holds(was, "MaxShadowResolution=1024"@) ==> holds(now, "MaxShadowResolution=1024"@)
            &&& holds(was, "FoliageDrawRadiusMultiplier=1.050000"@) || holds(was, "FoliageDrawRadiusMultiplier=0.700000"@) ==> holds(now, "FoliageDrawRadiusMultiplier=0.700000"@)
            &&& holds(was, "TimeBetweenPurgingPendingKillObjects=120"@) || holds(was, "TimeBetweenPurgingPendingKillObjects=300"@) ==> holds(now, "TimeBetweenPurgingPendingKillObjects=300"@)
            &&& holds(was, "MaxObjectsNotConsideredByGC=0"@) || holds(was, "MaxObjectsNotConsideredByGC=500000"@) ==> holds(now, "MaxObjectsNotConsideredByGC=500000"@)
            &&& holds(was, "SizeOfPermanentObjectPool=0"@) || holds(was, "SizeOfPermanentObjectPool=16777216"@) ==> holds(now, "SizeOfPermanentObjectPool=16777216"@)
            &&& holds(was, "PoolSize=2048"@) || holds(was, "PoolSize=3072"@) ==> holds(now, "PoolSize=3072"@)
            &&& holds(was, "HysteresisLimit=30"@) || holds(was, "HysteresisLimit=50"@) ==> holds(now, "HysteresisLimit=50"@)
            &&& holds(was, "FudgeFactorDecreaseRateOfChange=-0.4"@) || holds(was, "FudgeFactorDecreaseRateOfChange=-0.8"@) ==> holds(now, "FudgeFactorDecreaseRateOfChange=-0.8"@)
        }),
{
    lemma_base_patched(m);
    let was = file_text(m.files[s1_ini()])->Ok_0.0;
    lemma_lists_turned(was);
    lemma_costly_setting_turned(was, patched(was, s1_engine(), s1_engine().len() as int));
}

/// And so it is with the default settings.
pub proof fn law_default_settings_are_gone(m: Machine)
    requires
        m.wf(),
        m.willing(),
        held(patch_ini_files_talk(), m).1 is Ok,
    ensures
        ({
            let after = held(patch_ini_files_talk(), m).0;
            let was = file_text(m.files[default_ini()])->Ok_0.0;
            let now = file_text(after.files[default_ini()])->Ok_0.0;
            &&& m.has(default_ini()) && file_text(m.files[default_ini()]) is Ok
            &&& after.has(default_ini()) && file_text(after.files[default_ini()]) is Ok
            &&& file_text(after.files[default_ini()])->Ok_0.1 == file_text(m.files[default_ini()])->Ok_0.1
            &&& !has_default_setting(now)
            &&& !has_default_setting(was) ==> now == was
            &&& holds(was, "bSmoothFrameRate=TRUE"@) || holds(was, "bSmoothFrameRate=FALSE"@) ==> holds(now, "bSmoothFrameRate=FALSE"@)
            &&& holds(was, "MaxSmoothedFrameRate=80"@) || holds(was, "MaxSmoothedFrameRate=300"@) ==> holds(now, "MaxSmoothedFrameRate=300"@)
            &&& holds(was, "AmbientOcclusion=True"@) || holds(was, "AmbientOcclusion=False"@) ==> holds(now, "AmbientOcclusion=False"@)
        }),
{
    let made = held(apply_patches_talk(s1_ini(), s1_engine()), m);
    let done = held(apply_patches_talk(default_ini(), default_engine()), made.0);
    assert(made.1 is Ok && done.1 is Ok && held(patch_ini_files_talk(), m).0 == done.0) by {
        broadcast use group_held;

    }
    lemma_file_patched(m, s1_ini(), s1_engine());
    lemma_apply_patches_changes(s1_ini(), s1_engine(), m, default_ini());
    lemma_file_patched(made.0, default_ini(), default_engine());
    let was = file_text(m.files[default_ini()])->Ok_0.0;
    lemma_lists_turned(was);
    lemma_default_setting_turned(was, patched(was, default_engine(), default_engine().len() as int));
}

/// And with the further settings, once those were changed.
pub proof fn law_further_settings_are_gone(m: Machine)
    requires
        m.wf(),
        m.willing(),
        held(patch_ini_aggressive_talk(), m).1 is Ok,
    ensures
        ({
            let after = held(patch_ini_aggressive_talk(), m).0;
            let was = file_text(m.files[s1_ini()])->Ok_0.0;
            let now = file_text(after.files[s1_ini()])->Ok_0.0;
            &&& m.has(s1_ini()) && file_text(m.files[s1_ini()]) is Ok
            &&& after.has(s1_ini()) && file_text(after.files[s1_ini()]) is Ok
            &&& file_text(after.files[s1_ini()])->Ok_0.1 == file_text(m.files[s1_ini()])->Ok_0.1
            &&& !has_further_setting(now)
            &&& !has_further_setting(was) ==> now == was
            &&& holds(was, "PoolSize=3072"@) || holds(was, "PoolSize=4096"@) ==> holds(now, "PoolSize=4096"@)
            &&& holds(was, "MaxShadowResolution=1024"@) || holds(was, "MaxShadowResolution=512"@) ==> holds(now, "MaxShadowResolution=512"@)
            &&& holds(was, "DynamicShadows=True"@) || holds(was, "DynamicShadows=False"@) ==> holds(now, "DynamicShadows=False"@)
            &&& holds(was, "bAllowWholeSceneDominantShadows=True"@) || holds(was, "bAllowWholeSceneDominantShadows=False"@) ==> holds(now, "bAllowWholeSceneDominantShadows=False"@)
            &&& holds(was, "bEnableForegroundShadowsOnWorld=True"@) || holds(was, "bEnableForegroundShadowsOnWorld=False"@) ==> holds(now, "bEnableForegroundShadowsOnWorld=False"@)
            &&& holds(was, "bEnableForegroundSelfShadowing=True"@) || holds(was, "bEnableForegroundSelfShadowing=False"@) ==> holds(now, "bEnableForegroundSelfShadowing=False"@)
            &&& holds(was, "SkeletalMeshLODBias=0"@) || holds(was, "SkeletalMeshLODBias=2"@) ==> holds(now, "SkeletalMeshLODBias=2"@)
            &&& holds(was, "ParticleLODBias=0"@) || holds(was, "ParticleLODBias=2"@) ==> holds(now, "ParticleLODBias=2"@)
            &&& holds(was, "SpeedTreeLODBias=0"@) || holds(was, "SpeedTreeLODBias=2"@) ==> holds(now, "SpeedTreeLODBias=2"@)
            &&& holds(was, "DetailMode=2"@) || holds(was, "DetailMode=1"@) ==> holds(now, "DetailMode=1"@)
            &&& holds(was, "MaxAnisotropy=16"@) || holds(was, "MaxAnisotropy=4"@) ==> holds(now, "MaxAnisotropy=4"@)
            &&& holds(was, "MaxAnisotropy=8"@) || holds(was, "MaxAnisotropy=4"@) ==> holds(now, "MaxAnisotropy=4"@)
            &&& holds(was, "MaxMultiSamples=4"@) || holds(was, "MaxMultiSamples=1"@) ==> holds(now, "MaxMultiSamples=1"@)
            &&& holds(was, "MaxMultiSamples=2"@) || holds(was, "MaxMultiSamples=1"@) ==> holds(now, "MaxMultiSamples=1"@)
            &&& holds(was, "FoliageDrawRadiusMultiplier=0.700000"@) || holds(was, "FoliageDrawRadiusMultiplier=0.500000"@) ==> holds(now, "FoliageDrawRadiusMultiplier=0.500000"@)
            &&& holds(was, "bInitializeShadersOnDemand=False"@) || holds(was, "bInitializeShadersOnDemand=True"@) ==> holds(now, "bInitializeShadersOnDemand=True"@)
            &&& holds(was, "bForceCPUAccessToGPUSkinVerts=True"@) || holds(was, "bForceCPUAccessToGPUSkinVerts=False"@) ==> holds(now, "bForceCPUAccessToGPUSkinVerts=False"@)
            &&& holds(was, "TranslucencyVolumeBlur=True"@) || holds(was, "TranslucencyVolumeBlur=False"@) ==> holds(now, "TranslucencyVolumeBlur=False"@)
            &&& holds(was, "AllowSubsurfaceScattering=True"@) || holds(was, "AllowSubsurfaceScattering=False"@) ==> holds(now, "AllowSubsurfaceScattering=False"@)
            &&& holds(was, "Bloom=True"@) || holds(was, "Bloom=False"@) ==> holds(now, "Bloom=False"@)
            &&& holds(was, "LightShafts=True"@) || holds(was, "LightShafts=False"@) ==> holds(now, "LightShafts=False"@)
            &&& holds(was, "ShadowFilterQualityBias=0"@) || holds(was, "ShadowFilterQualityBias=-1"@) ==> holds(now, "ShadowFilterQualityBias=-1"@)
        }),
{
    lemma_aggressive_is_patching(m);
    lemma_file_patched(m, s1_ini(), s1_engine_extra());
    let was = file_text(m.files[s1_ini()])->Ok_0.0;
    lemma_lists_turned(was);
    lemma_further_setting_turned(was, patched(was, s1_engine_extra(), s1_engine_extra().len() as int));
}

/// Changing the settings is told with the number of those that stood in each file, and the
/// further ones with the number that stood in theirs.
pub proof fn law_changes_are_counted(m: Machine)
    requires
        m.wf(),
        m.willing(),
    ensures
        held(patch_ini_files_talk(), m).1 matches Ok(step) ==> step == (StepView {
            name: "INI patches"@,
            ok: true,
            detail: "S1Engine: "@ + dec(standing(file_text(m.files[s1_ini()])->Ok_0.0, s1_engine(), 18))
                + " replacements, DefaultEngine: "@ + dec(
                standing(file_text(m.files[default_ini()])->Ok_0.0, default_engine(), 3),
            ) + " replacements"@,
        }),
        held(patch_ini_aggressive_talk(), m).1 matches Ok(step) ==> step == (StepView {
            name: "INI aggressive"@,
            ok: true,
            detail: dec(standing(file_text(m.files[s1_ini()])->Ok_0.0, s1_engine_extra(), 22))
                + " aggressive replacements"@,
        }),
{
    let made = held(apply_patches_talk(s1_ini(), s1_engine()), m);
    let done = held(apply_patches_talk(default_ini(), default_engine()), made.0);
    if held(patch_ini_files_talk(), m).1 is Ok {
        assert(made.1 is Ok && done.1 is Ok) by {
            broadcast use group_held;

        }
        lemma_file_patched(m, s1_ini(), s1_engine());
        lemma_apply_patches_changes(s1_ini(), s1_engine(), m, default_ini());
        lemma_file_patched(made.0, default_ini(), default_engine());
        lemma_counted_patches(m, s1_ini(), s1_engine());
        lemma_counted_patches(made.0, default_ini(), default_engine());
        assert(held(patch_ini_files_talk(), m).1 == Ok::<StepView, Text>(
            StepView {
                name: "INI patches"@,
                ok: true,
                detail: "S1Engine: "@ + dec(made.1->Ok_0) + " replacements, DefaultEngine: "@ + dec(done.1->Ok_0)
                    + " replacements"@,
            },
        )) by {
            broadcast use group_held;

        }
    }
    if held(patch_ini_aggressive_talk(), m).1 is Ok {
        lemma_aggressive_is_patching(m);
        lemma_counted_patches(m, s1_ini(), s1_engine_extra());
        let r = held(apply_patches_talk(s1_ini(), s1_engine_extra()), m).1;
        assert(held(patch_ini_aggressive_talk(), m).1 == Ok::<StepView, Text>(
            StepView { name: "INI aggressive"@, ok: true, detail: dec(r->Ok_0) + " aggressive replacements"@ },
        )) by {
            broadcast use group_held;

        }
    }
}

proof fn lemma_counted_patches(m: Machine, l: Location, patches: Seq<PatchView>)
    requires
        m.wf(),
        m.willing(),
        l == s1_ini() || l == default_ini(),
        patches == s1_engine() || patches == default_engine() || patches == s1_engine_extra(),
        held(apply_patches_talk(l, patches), m).1 is Ok,
    ensures
        held(apply_patches_talk(l, patches), m).1 == Ok::<nat, Text>(
            standing(file_text(m.files[l])->Ok_0.0, patches, patches.len() as int),
        ),
{
    broadcast use group_held;

    lemma_backup_once(m, l);
    law_replacements_are_counted(file_text(m.files[l])->Ok_0.0, patches);
}

/// The settings can be changed exactly where both settings files are there and can be read,
/// and the further ones where the first is. A file that is missing is told.
pub proof fn law_when_settings_can_be_changed(m: Machine)
    requires
        m.wf(),
        m.willing(),
    ensures
        ({
            let first = Location { place: Place::S1EngineIni, backup: false };
            let second = Location { place: Place::DefaultEngineIni, backup: false };
            let readable = |l: Location| m.has(l) && file_text(m.files[l]) is Ok;
            &&& held(patch_ini_files_talk(), m).1 is Ok <==> readable(first) && readable(second)
            &&& held(patch_ini_aggressive_talk(), m).1 is Ok <==> readable(first)
            &&& !m.has(first) ==> held(patch_ini_files_talk(), m) == (
                m,
                Err::<StepView, Text>("file not found: "@ + (m.paths)(first)),
            )
            &&& !m.has(first) ==> held(patch_ini_aggressive_talk(), m) == (
                m,
                Err::<StepView, Text>("file not found: "@ + (m.paths)(first)),
            )
            &&& readable(first) && !m.has(second) ==> held(patch_ini_files_talk(), m).1 == Err::<StepView, Text>(
                "file not found: "@ + (m.paths)(second),
            )
        }),
{
    let made = held(apply_patches_talk(s1_ini(), s1_engine()), m);
    lemma_when_patched(m, s1_ini(), s1_engine());
    lemma_when_patched(m, s1_ini(), s1_engine_extra());
    lemma_when_patched(made.0, default_ini(), default_engine());
    lemma_apply_patches_changes(s1_ini(), s1_engine(), m, default_ini());
    let done = held(apply_patches_talk(default_ini(), default_engine()), made.0);
    assert(held(patch_ini_files_talk(), m).1 is Ok <==> made.1 is Ok && done.1 is Ok) by {
        broadcast use group_held;

    }
    assert(made.1 matches Err(e) ==> held(patch_ini_files_talk(), m) == (made.0, Err::<StepView, Text>(e))) by {
        broadcast use group_held;

    }
    assert(made.1 is Ok ==> (done.1 matches Err(e) ==> held(patch_ini_files_talk(), m) == (
        done.0,
        Err::<StepView, Text>(e),
    ))) by {
        broadcast use group_held;

    }
    let further = held(apply_patches_talk(s1_ini(), s1_engine_extra()), m);
    assert(held(patch_ini_aggressive_talk(), m).1 is Ok <==> further.1 is Ok) by {
        broadcast use group_held;

    }
    assert(further.1 matches Err(e) ==> held(patch_ini_aggressive_talk(), m) == (further.0, Err::<StepView, Text>(e)))
        by {
        broadcast use group_held;

    }
}

/// Replacements in a file succeed exactly where it is there and can be read.
proof fn lemma_when_patched(m: Machine, l: Location, patches: Seq<PatchView>)
    requires
        m.wf(),
        m.willing(),
        l == s1_ini() || l == default_ini(),
    ensures
        ({
            let (after, r) = held(apply_patches_talk(l, patches), m);
            &&& r is Ok <==> m.has(l) && file_text(m.files[l]) is Ok
            &&& !m.has(l) ==> after == m && r == Err::<nat, Text>("file not found: "@ + (m.paths)(l))
            &&& after.wf() && after.willing() && after.paths == m.paths
        }),
{
    broadcast use group_held;

    lemma_backup_once(m, l);
}

} // verus!
