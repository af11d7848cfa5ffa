//! Text files of the game: their encoding and the replacements made in them.
use vstd::prelude::*;
use vstd::utf8::{
    decode_utf8, decode_utf8_encode_utf8, encode_utf8, encode_utf8_decode_utf8, encode_utf8_valid_utf8,
    valid_utf8,
};

use crate::text::{chars_of, has, holds, lemma_replaced_absent, replace, replaced, string_of, Text};
use crate::utf16::{
    bytes_of, decode, decoded, encode, le_units, lemma_bytes_of_units, lemma_encode_of_decode,
    lemma_text_of_utf16_le, units_of, utf16_le,
};

verus! {

/// What `String::from_utf8_lossy` makes of bytes.
pub uninterp spec fn utf8_lossy(b: Seq<u8>) -> Text;

/// `String::from_utf8_lossy` decodes UTF-8. What it puts in the place of bytes
/// that are no UTF-8 is left to it.
#[verifier::external_body]
pub(crate) fn from_utf8_lossy(b: &[u8]) -> (s: String)
    ensures
        s@ == utf8_lossy(b@),
        valid_utf8(b@) ==> s@ == decode_utf8(b@),
{
    String::from_utf8_lossy(b).into_owned()
}

/// Whether a file is in UTF-16 with the low byte first: the mark at its start
/// says so.
pub open spec fn is_utf16(b: Seq<u8>) -> bool {
    b.len() >= 2 && b[0] == 0xFF && b[1] == 0xFE
}

/// The text of bytes in UTF-8.
pub open spec fn utf8_text(b: Seq<u8>) -> Text {
    if valid_utf8(b) {
        decode_utf8(b)
    } else {
        utf8_lossy(b)
    }
}

/// The text of a file and whether it is in UTF-16, or what is wrong with it.
pub open spec fn file_text(b: Seq<u8>) -> Result<(Text, bool), Text> {
    if is_utf16(b) {
        match decoded(le_units(b.skip(2))) {
            Some(s) => Ok((s, true)),
            None => Err("utf16 decode: invalid utf-16: lone surrogate found"@),
        }
    } else {
        Ok((utf8_text(b), false))
    }
}

/// The file of a text.
pub open spec fn text_file(s: Text, utf16: bool) -> Seq<u8> {
    if utf16 {
        seq![0xFFu8, 0xFEu8] + utf16_le(s)
    } else {
        encode_utf8(s)
    }
}

/// Reads the text of a file, in UTF-16 where it begins with the mark of that and
/// in UTF-8 elsewhere.
pub fn read_text(b: &[u8]) -> (r: Result<(Vec<char>, bool), String>)
    ensures
        (match r {
            Ok((s, utf16)) => Ok((s@, utf16)),
            Err(e) => Err(e@),
        }) == file_text(b@),
{
    if b.len() >= 2 && b[0] == 0xFF && b[1] == 0xFE {
        match decode(&units_of(b, 2)) {
            Some(s) => Ok((s, true)),
            None => Err("utf16 decode: invalid utf-16: lone surrogate found".to_owned()),
        }
    } else {
        Ok((chars_of(&from_utf8_lossy(b)), false))
    }
}

/// Writes a text as a file.
pub fn write_text(s: &[char], utf16: bool) -> (b: Vec<u8>)
    ensures
        b@ == text_file(s@, utf16),
{
    if utf16 {
        let mut out: Vec<u8> = vec![0xFF, 0xFE];
        let mut tail = bytes_of(&encode(s));
        out.append(&mut tail);
        out
    } else {
        string_of(s).as_str().as_bytes_vec()
    }
}

/// Some text, and what to put in its place.
pub struct Patch {
    pub from: &'static str,
    pub to: &'static str,
}

/// [`Patch`] in the model.
pub struct PatchView {
    pub from: Text,
    pub to: Text,
}

impl View for Patch {
    type V = PatchView;

    open spec fn view(&self) -> PatchView {
        PatchView { from: self.from@, to: self.to@ }
    }
}

/// The first `n` replacements made one after the other in `s`.
pub open spec fn patched(s: Text, patches: Seq<PatchView>, n: int) -> Text
    decreases n,
{
    if n <= 0 {
        s
    } else {
        replaced(patched(s, patches, n - 1), patches[n - 1].from, patches[n - 1].to)
    }
}

/// How many of the first `n` replacements find something to replace.
pub open spec fn applied(s: Text, patches: Seq<PatchView>, n: int) -> nat
    decreases n,
{
    if n <= 0 {
        0
    } else {
        applied(s, patches, n - 1) + (if holds(patched(s, patches, n - 1), patches[n - 1].from) {
            1nat
        } else {
            0nat
        })
    }
}

/// None of the texts to be replaced is empty.
pub open spec fn usable(patches: Seq<PatchView>) -> bool {
    forall|i: int| 0 <= i < patches.len() ==> (#[trigger] patches[i]).from.len() > 0
}

/// The model of a list of replacements.
pub open spec fn patch_views(patches: Seq<Patch>) -> Seq<PatchView> {
    patches.map_values(|p: Patch| p@)
}

/// Makes the replacements in a text; gives the text and how many of them found
/// something to replace.
pub fn apply_patches(content: Vec<char>, patches: &Vec<Patch>) -> (r: (Vec<char>, usize))
    requires
        usable(patch_views(patches@)),
    ensures
        r.0@ == patched(content@, patch_views(patches@), patches@.len() as int),
        r.1 == applied(content@, patch_views(patches@), patches@.len() as int),
{
    let n: usize = patches.len();
    let ghost views = patch_views(patches@);
    let ghost start = content@;
    let mut s = content;
    let mut count: usize = 0;
    for i in 0..n
        invariant
            n == patches@.len(),
            views == patch_views(patches@),
            usable(views),
            s@ == patched(start, views, i as int),
            count == applied(start, views, i as int),
            count <= i,
    {
        let from = chars_of(patches[i].from);
        assert(views[i as int].from == from@);
        if has(&s, &from) {
            s = replace(&s, &from, &chars_of(patches[i].to));
            count += 1;
        } else {
            proof {
                lemma_replaced_absent(s@, from@, views[i as int].to, 0);
                assert(s@.skip(0) =~= s@);
            }
        }
    }
    (s, count)
}

/// The settings of the engine that cost frames.
pub open spec fn s1_engine() -> Seq<PatchView> {
    seq![
        PatchView { from: "bSmoothFrameRate=TRUE"@, to: "bSmoothFrameRate=FALSE"@ },
        PatchView { from: "OneFrameThreadLag=False"@, to: "OneFrameThreadLag=True"@ },
        PatchView { from: "MotionBlur=True"@, to: "MotionBlur=False"@ },
        PatchView { from: "DepthOfField=True"@, to: "DepthOfField=False"@ },
        PatchView { from: "AmbientOcclusion=True"@, to: "AmbientOcclusion=False"@ },
        PatchView { from: "UseHighQualityBloom=True"@, to: "UseHighQualityBloom=False"@ },
        PatchView { from: "Distortion=True"@, to: "Distortion=False"@ },
        PatchView { from: "FogVolumes=True"@, to: "FogVolumes=False"@ },
        PatchView { from: "LensFlares=True"@, to: "LensFlares=False"@ },
        PatchView { from: "FXAA=True"@, to: "FXAA=False"@ },
        PatchView { from: "MaxShadowResolution=2048"@, to: "MaxShadowResolution=1024"@ },
        PatchView { from: "FoliageDrawRadiusMultiplier=1.050000"@, to: "FoliageDrawRadiusMultiplier=0.700000"@ },
        PatchView { from: "TimeBetweenPurgingPendingKillObjects=120"@, to: "TimeBetweenPurgingPendingKillObjects=300"@ },
        PatchView { from: "MaxObjectsNotConsideredByGC=0"@, to: "MaxObjectsNotConsideredByGC=500000"@ },
        PatchView { from: "SizeOfPermanentObjectPool=0"@, to: "SizeOfPermanentObjectPool=16777216"@ },
        PatchView { from: "PoolSize=2048"@, to: "PoolSize=3072"@ },
        PatchView { from: "HysteresisLimit=30"@, to: "HysteresisLimit=50"@ },
        PatchView { from: "FudgeFactorDecreaseRateOfChange=-0.4"@, to: "FudgeFactorDecreaseRateOfChange=-0.8"@ },
    ]
}

/// The settings of the engine that cost frames.
pub fn s1_engine_patches() -> (r: Vec<Patch>)
    ensures
        patch_views(r@) == s1_engine(),
        usable(s1_engine()),
{
    let r = vec![
        Patch { from: "bSmoothFrameRate=TRUE", to: "bSmoothFrameRate=FALSE" },
        Patch { from: "OneFrameThreadLag=False", to: "OneFrameThreadLag=True" },
        Patch { from: "MotionBlur=True", to: "MotionBlur=False" },
        Patch { from: "DepthOfField=True", to: "DepthOfField=False" },
        Patch { from: "AmbientOcclusion=True", to: "AmbientOcclusion=False" },
        Patch { from: "UseHighQualityBloom=True", to: "UseHighQualityBloom=False" },
        Patch { from: "Distortion=True", to: "Distortion=False" },
        Patch { from: "FogVolumes=True", to: "FogVolumes=False" },
        Patch { from: "LensFlares=True", to: "LensFlares=False" },
        Patch { from: "FXAA=True", to: "FXAA=False" },
        Patch { from: "MaxShadowResolution=2048", to: "MaxShadowResolution=1024" },
        Patch { from: "FoliageDrawRadiusMultiplier=1.050000", to: "FoliageDrawRadiusMultiplier=0.700000" },
        Patch { from: "TimeBetweenPurgingPendingKillObjects=120", to: "TimeBetweenPurgingPendingKillObjects=300" },
        Patch { from: "MaxObjectsNotConsideredByGC=0", to: "MaxObjectsNotConsideredByGC=500000" },
        Patch { from: "SizeOfPermanentObjectPool=0", to: "SizeOfPermanentObjectPool=16777216" },
        Patch { from: "PoolSize=2048", to: "PoolSize=3072" },
        Patch { from: "HysteresisLimit=30", to: "HysteresisLimit=50" },
        Patch { from: "FudgeFactorDecreaseRateOfChange=-0.4", to: "FudgeFactorDecreaseRateOfChange=-0.8" },
    ];
    proof {
        reveal_strlit("bSmoothFrameRate=TRUE");
        reveal_strlit("OneFrameThreadLag=False");
        reveal_strlit("MotionBlur=True");
        reveal_strlit("DepthOfField=True");
        reveal_strlit("AmbientOcclusion=True");
        reveal_strlit("UseHighQualityBloom=True");
        reveal_strlit("Distortion=True");
        reveal_strlit("FogVolumes=True");
        reveal_strlit("LensFlares=True");
        reveal_strlit("FXAA=True");
        reveal_strlit("MaxShadowResolution=2048");
        reveal_strlit("FoliageDrawRadiusMultiplier=1.050000");
        reveal_strlit("TimeBetweenPurgingPendingKillObjects=120");
        reveal_strlit("MaxObjectsNotConsideredByGC=0");
        reveal_strlit("SizeOfPermanentObjectPool=0");
        reveal_strlit("PoolSize=2048");
        reveal_strlit("HysteresisLimit=30");
        reveal_strlit("FudgeFactorDecreaseRateOfChange=-0.4");
        assert(patch_views(r@) =~= s1_engine());
    }
    r
}

/// Further settings of the engine, at the cost of how the game looks.
/// They build on those of [`s1_engine_patches`].
pub open spec fn s1_engine_extra() -> Seq<PatchView> {
    seq![
        PatchView { from: "PoolSize=3072"@, to: "PoolSize=4096"@ },
        PatchView { from: "MaxShadowResolution=1024"@, to: "MaxShadowResolution=512"@ },
        PatchView { from: "DynamicShadows=True"@, to: "DynamicShadows=False"@ },
        PatchView { from: "bAllowWholeSceneDominantShadows=True"@, to: "bAllowWholeSceneDominantShadows=False"@ },
        PatchView { from: "bEnableForegroundShadowsOnWorld=True"@, to: "bEnableForegroundShadowsOnWorld=False"@ },
        PatchView { from: "bEnableForegroundSelfShadowing=True"@, to: "bEnableForegroundSelfShadowing=False"@ },
        PatchView { from: "SkeletalMeshLODBias=0"@, to: "SkeletalMeshLODBias=2"@ },
        PatchView { from: "ParticleLODBias=0"@, to: "ParticleLODBias=2"@ },
        PatchView { from: "SpeedTreeLODBias=0"@, to: "SpeedTreeLODBias=2"@ },
        PatchView { from: "DetailMode=2"@, to: "DetailMode=1"@ },
        PatchView { from: "MaxAnisotropy=16"@, to: "MaxAnisotropy=4"@ },
        PatchView { from: "MaxAnisotropy=8"@, to: "MaxAnisotropy=4"@ },
        PatchView { from: "MaxMultiSamples=4"@, to: "MaxMultiSamples=1"@ },
        PatchView { from: "MaxMultiSamples=2"@, to: "MaxMultiSamples=1"@ },
        PatchView { from: "FoliageDrawRadiusMultiplier=0.700000"@, to: "FoliageDrawRadiusMultiplier=0.500000"@ },
        PatchView { from: "bInitializeShadersOnDemand=False"@, to: "bInitializeShadersOnDemand=True"@ },
        PatchView { from: "bForceCPUAccessToGPUSkinVerts=True"@, to: "bForceCPUAccessToGPUSkinVerts=False"@ },
        PatchView { from: "TranslucencyVolumeBlur=True"@, to: "TranslucencyVolumeBlur=False"@ },
        PatchView { from: "AllowSubsurfaceScattering=True"@, to: "AllowSubsurfaceScattering=False"@ },
        PatchView { from: "Bloom=True"@, to: "Bloom=False"@ },
        PatchView { from: "LightShafts=True"@, to: "LightShafts=False"@ },
        PatchView { from: "ShadowFilterQualityBias=0"@, to: "ShadowFilterQualityBias=-1"@ },
    ]
}

/// Further settings of the engine, at the cost of how the game looks.
/// They build on those of [`s1_engine_patches`].
pub fn s1_engine_aggressive() -> (r: Vec<Patch>)
    ensures
        patch_views(r@) == s1_engine_extra(),
        usable(s1_engine_extra()),
{
    let r = vec![
        Patch { from: "PoolSize=3072", to: "PoolSize=4096" },
        Patch { from: "MaxShadowResolution=1024", to: "MaxShadowResolution=512" },
        Patch { from: "DynamicShadows=True", to: "DynamicShadows=False" },
        Patch { from: "bAllowWholeSceneDominantShadows=True", to: "bAllowWholeSceneDominantShadows=False" },
        Patch { from: "bEnableForegroundShadowsOnWorld=True", to: "bEnableForegroundShadowsOnWorld=False" },
        Patch { from: "bEnableForegroundSelfShadowing=True", to: "bEnableForegroundSelfShadowing=False" },
        Patch { from: "SkeletalMeshLODBias=0", to: "SkeletalMeshLODBias=2" },
        Patch { from: "ParticleLODBias=0", to: "ParticleLODBias=2" },
        Patch { from: "SpeedTreeLODBias=0", to: "SpeedTreeLODBias=2" },
        Patch { from: "DetailMode=2", to: "DetailMode=1" },
        Patch { from: "MaxAnisotropy=16", to: "MaxAnisotropy=4" },
        Patch { from: "MaxAnisotropy=8", to: "MaxAnisotropy=4" },
        Patch { from: "MaxMultiSamples=4", to: "MaxMultiSamples=1" },
        Patch { from: "MaxMultiSamples=2", to: "MaxMultiSamples=1" },
        Patch { from: "FoliageDrawRadiusMultiplier=0.700000", to: "FoliageDrawRadiusMultiplier=0.500000" },
        Patch { from: "bInitializeShadersOnDemand=False", to: "bInitializeShadersOnDemand=True" },
        Patch { from: "bForceCPUAccessToGPUSkinVerts=True", to: "bForceCPUAccessToGPUSkinVerts=False" },
        Patch { from: "TranslucencyVolumeBlur=True", to: "TranslucencyVolumeBlur=False" },
        Patch { from: "AllowSubsurfaceScattering=True", to: "AllowSubsurfaceScattering=False" },
        Patch { from: "Bloom=True", to: "Bloom=False" },
        Patch { from: "LightShafts=True", to: "LightShafts=False" },
        Patch { from: "ShadowFilterQualityBias=0", to: "ShadowFilterQualityBias=-1" },
    ];
    proof {
        reveal_strlit("PoolSize=3072");
        reveal_strlit("MaxShadowResolution=1024");
        reveal_strlit("DynamicShadows=True");
        reveal_strlit("bAllowWholeSceneDominantShadows=True");
        reveal_strlit("bEnableForegroundShadowsOnWorld=True");
        reveal_strlit("bEnableForegroundSelfShadowing=True");
        reveal_strlit("SkeletalMeshLODBias=0");
        reveal_strlit("ParticleLODBias=0");
        reveal_strlit("SpeedTreeLODBias=0");
        reveal_strlit("DetailMode=2");
        reveal_strlit("MaxAnisotropy=16");
        reveal_strlit("MaxAnisotropy=8");
        reveal_strlit("MaxMultiSamples=4");
        reveal_strlit("MaxMultiSamples=2");
        reveal_strlit("FoliageDrawRadiusMultiplier=0.700000");
        reveal_strlit("bInitializeShadersOnDemand=False");
        reveal_strlit("bForceCPUAccessToGPUSkinVerts=True");
        reveal_strlit("TranslucencyVolumeBlur=True");
        reveal_strlit("AllowSubsurfaceScattering=True");
        reveal_strlit("Bloom=True");
        reveal_strlit("LightShafts=True");
        reveal_strlit("ShadowFilterQualityBias=0");
        assert(patch_views(r@) =~= s1_engine_extra());
    }
    r
}

/// The default settings of the engine that cost frames.
pub open spec fn default_engine() -> Seq<PatchView> {
    seq![
        PatchView { from: "bSmoothFrameRate=TRUE"@, to: "bSmoothFrameRate=FALSE"@ },
        PatchView { from: "MaxSmoothedFrameRate=80"@, to: "MaxSmoothedFrameRate=300"@ },
        PatchView { from: "AmbientOcclusion=True"@, to: "AmbientOcclusion=False"@ },
    ]
}

/// The default settings of the engine that cost frames.
pub fn default_engine_patches() -> (r: Vec<Patch>)
    ensures
        patch_views(r@) == default_engine(),
        usable(default_engine()),
{
    let r = vec![
        Patch { from: "bSmoothFrameRate=TRUE", to: "bSmoothFrameRate=FALSE" },
        Patch { from: "MaxSmoothedFrameRate=80", to: "MaxSmoothedFrameRate=300" },
        Patch { from: "AmbientOcclusion=True", to: "AmbientOcclusion=False" },
    ];
    proof {
        reveal_strlit("bSmoothFrameRate=TRUE");
        reveal_strlit("MaxSmoothedFrameRate=80");
        reveal_strlit("AmbientOcclusion=True");
        assert(patch_views(r@) =~= default_engine());
    }
    r
}

/// No UTF-8 begins with the mark of UTF-16.
proof fn lemma_utf8_has_no_mark(b: Seq<u8>)
    requires
        valid_utf8(b),
    ensures
        !is_utf16(b),
{
    if b.len() > 0 {
        let first = b[0];
        assert(first & 0x80 == 0 || first & 0xE0 == 0xC0 || first & 0xF0 == 0xE0 || first & 0xF8 == 0xF0
            ==> first != 0xFF) by (bit_vector);
    }
}

/// A text that is written as a file is read back from it, and so is the encoding.
pub proof fn law_text_is_read_back(s: Text, utf16: bool)
    ensures
        file_text(text_file(s, utf16)) == Ok::<(Text, bool), Text>((s, utf16)),
{
    if utf16 {
        let b = text_file(s, true);
        assert(b.skip(2) =~= utf16_le(s));
        lemma_text_of_utf16_le(s);
    } else {
        encode_utf8_valid_utf8(s);
        encode_utf8_decode_utf8(s);
        lemma_utf8_has_no_mark(encode_utf8(s));
    }
}

/// A file that is written back with its text and encoding as they were read is
/// the same file. It is taken to be in UTF-8, or in UTF-16 with whole code units.
pub proof fn law_file_is_written_back(b: Seq<u8>)
    requires
        file_text(b) is Ok,
        is_utf16(b) ==> b.len() % 2 == 0,
        !is_utf16(b) ==> valid_utf8(b),
    ensures
        text_file(file_text(b)->Ok_0.0, file_text(b)->Ok_0.1) == b,
{
    if is_utf16(b) {
        let tail = b.skip(2);
        lemma_encode_of_decode(le_units(tail));
        lemma_bytes_of_units(tail);
        assert(seq![0xFFu8, 0xFEu8] + tail =~= b);
    } else {
        decode_utf8_encode_utf8(b);
    }
}

/// Where none of the texts to be replaced stands, nothing changes.
pub proof fn law_nothing_to_replace(s: Text, patches: Seq<PatchView>, n: int)
    requires
        0 <= n <= patches.len(),
        forall|i: int| 0 <= i < n ==> !holds(s, (#[trigger] patches[i]).from),
    ensures
        patched(s, patches, n) == s,
        applied(s, patches, n) == 0,
    decreases n,
{
    if n > 0 {
        law_nothing_to_replace(s, patches, n - 1);
        assert(!holds(s, patches[n - 1].from));
        lemma_replaced_absent(s, patches[n - 1].from, patches[n - 1].to, 0);
        assert(s.skip(0) =~= s);
    }
}

/// A file is in UTF-16 exactly where it begins with the bytes FF and FE; the rest of it is
/// then the text, the low byte of each code unit first, or it is told that it is none.
/// Every other file is in UTF-8.
pub proof fn law_mark_tells_the_encoding(b: Seq<u8>, s: Text)
    ensures
        text_file(s, true) == seq![0xFFu8, 0xFEu8] + utf16_le(s),
        text_file(s, false) == encode_utf8(s),
        b.len() >= 2 && b[0] == 0xFF && b[1] == 0xFE && b.len() % 2 == 0 ==> {
            &&& file_text(b) == Ok::<(Text, bool), Text>((s, true)) <==> b.skip(2) == utf16_le(s)
            &&& file_text(b) is Err ==> file_text(b) == Err::<(Text, bool), Text>(
                "utf16 decode: invalid utf-16: lone surrogate found"@,
            )
        },
        b.len() < 2 || b[0] != 0xFF || b[1] != 0xFE ==> {
            &&& file_text(b) is Ok && !file_text(b)->Ok_0.1
            &&& b == encode_utf8(s) ==> file_text(b) == Ok::<(Text, bool), Text>((s, false))
        },
{
    encode_utf8_valid_utf8(s);
    encode_utf8_decode_utf8(s);
    lemma_text_of_utf16_le(s);
    if is_utf16(b) && b.len() % 2 == 0 {
        let tail = b.skip(2);
        if decoded(le_units(tail)) == Some(s) {
            lemma_encode_of_decode(le_units(tail));
            lemma_bytes_of_units(tail);
        }
    }
}

/// Replacements are made one after the other: those of two lists one behind the other are
/// those of the second, made in what those of the first leave; and one alone replaces each
/// occurrence of its text.
pub proof fn law_replacements_follow_each_other(s: Text, a: Seq<PatchView>, b: Seq<PatchView>, p: PatchView)
    ensures
        patched(s, seq![p], 1) == replaced(s, p.from, p.to),
        patched(s, a + b, (a.len() + b.len()) as int) == patched(patched(s, a, a.len() as int), b, b.len() as int),
    decreases b.len(),
{
    reveal_with_fuel(patched, 3);
    if b.len() > 0 {
        let rest = b.drop_last();
        law_replacements_follow_each_other(s, a, rest, p);
        let n = (a.len() + b.len()) as int;
        lemma_patched_by_the_first(s, a + b, a + rest, n - 1);
        lemma_patched_by_the_first(patched(s, a, a.len() as int), b, rest, b.len() - 1);
    } else {
        lemma_patched_by_the_first(s, a + b, a, a.len() as int);
    }
}

/// The first replacements are the same in lists that begin alike.
proof fn lemma_patched_by_the_first(s: Text, a: Seq<PatchView>, b: Seq<PatchView>, n: int)
    requires
        n <= a.len(),
        n <= b.len(),
        forall|i: int| 0 <= i < n ==> a[i] == b[i],
    ensures
        patched(s, a, n) == patched(s, b, n),
    decreases n,
{
    if n > 0 {
        lemma_patched_by_the_first(s, a, b, n - 1);
    }
}

} // verus!
