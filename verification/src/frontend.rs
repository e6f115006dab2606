use vstd::prelude::*;
use crate::oci::ImageSpecification;
use crate::pb;
use crate::platform::{platform_id, platform_id_view};
use crate::text::StrLike;

verus! {

/// Reference to a solved result held by the BuildKit daemon.
#[derive(Debug, Clone, PartialEq, Eq)]
pub struct OutputRef(pub String);

/// One platform-keyed entry of a multi-platform [`FrontendOutput`]. The `id`
/// is the key in BuildKit's `RefMap` and the suffix of the
/// `containerimage.config/<id>` metadata key; by default it is the canonical
/// `<os>/<arch>[/<variant>]` of `platform`.
#[derive(Debug, Clone)]
pub struct MultiPlatformEntry {
    pub id: String,
    pub platform: pb::Platform,
    pub output: OutputRef,
    pub image_spec: Option<ImageSpecification>,
}

impl MultiPlatformEntry {
    /// An entry for `output` built for `platform`, keyed by the platform's
    /// canonical identifier, with no image config.
    pub fn new(platform: pb::Platform, output: OutputRef) -> (r: MultiPlatformEntry)
        ensures
            r.id@ == platform_id_view(platform@),
            r.platform == platform,
            r.output == output,
            r.image_spec is None,
    {
        let id = platform_id(&platform);
        MultiPlatformEntry { id, platform, output, image_spec: None }
    }

    /// The entry with an image config attached.
    pub fn with_spec(self, spec: ImageSpecification) -> (r: MultiPlatformEntry)
        ensures
            r.id == self.id,
            r.platform == self.platform,
            r.output == self.output,
            r.image_spec == Some(spec),
    {
        MultiPlatformEntry { image_spec: Some(spec), ..self }
    }

    /// The entry with another key, for callers that expect a non-canonical one.
    pub fn with_id<S: StrLike>(self, id: S) -> (r: MultiPlatformEntry)
        ensures
            r.id@ == id.str_view(),
            r.platform == self.platform,
            r.output == self.output,
            r.image_spec == self.image_spec,
    {
        MultiPlatformEntry { id: id.to_owned_string(), ..self }
    }
}

/// What a frontend produced.
#[derive(Debug, Clone)]
pub enum FrontendOutputInner {
    /// One result, with its image config if any.
    Single { output: OutputRef, image_spec: Option<ImageSpecification> },
    /// One result per platform.
    MultiPlatform(Vec<MultiPlatformEntry>),
}

/// Result of a frontend run: a single output ref (the classic
/// single-platform case) or per-platform refs that BuildKit's image exporter
/// assembles into an image index.
#[derive(Debug, Clone)]
pub struct FrontendOutput {
    pub inner: FrontendOutputInner,
}

impl FrontendOutput {
    /// A single result without an image config.
    pub fn with_ref(output: OutputRef) -> (r: FrontendOutput)
        ensures
            r.inner == (FrontendOutputInner::Single { output, image_spec: None }),
    {
        FrontendOutput { inner: FrontendOutputInner::Single { output, image_spec: None } }
    }

    /// A single result with its image config.
    pub fn with_spec_and_ref(spec: ImageSpecification, output: OutputRef) -> (r: FrontendOutput)
        ensures
            r.inner == (FrontendOutputInner::Single { output, image_spec: Some(spec) }),
    {
        FrontendOutput { inner: FrontendOutputInner::Single { output, image_spec: Some(spec) } }
    }

    /// A multi-platform result. Each entry gives a per-platform ref and, if
    /// it has an image config, a per-platform `containerimage.config/<id>`
    /// metadata entry; the `refs.platforms` list goes with them.
    pub fn with_multi_platform(entries: Vec<MultiPlatformEntry>) -> (r: FrontendOutput)
        ensures
            r.inner == FrontendOutputInner::MultiPlatform(entries),
    {
        FrontendOutput { inner: FrontendOutputInner::MultiPlatform(entries) }
    }
}

} // verus!
