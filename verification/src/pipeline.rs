//! Orchestration decisions: which stages of a build must run, from plain
//! facts about what is already on disk. The runner performs the fetches and
//! writes; every decision is taken here.

use vstd::prelude::*;

verus! {

/// What one build run must do.
#[derive(Debug, Clone, Copy, PartialEq, Eq, Structural)]
pub struct BuildPlan {
    /// Whether the catalog must be scraped and regenerated; false reuses
    /// the cached artifact and issues no network request for it.
    pub fetch_catalog: bool,
    /// Whether the icon stage must run, downloading and converting icons.
    pub run_icon_stage: bool,
    /// Whether the final resource bundle must be rebuilt.
    pub compile_resources: bool,
}

/// Whether a source file counts as newer than a target, by timestamps.
pub fn is_source_newer(source_modified: u64, target_modified: u64) -> (r: bool)
    ensures
        r == (source_modified > target_modified),
{
    source_modified > target_modified
}

/// Whether both files exist and the source is strictly newer than the
/// target.
pub fn target_exists_and_is_newer(
    source_exists: bool,
    target_exists: bool,
    source_modified: u64,
    target_modified: u64,
) -> (r: bool)
    ensures
        r == (source_exists && target_exists && source_modified > target_modified),
{
    source_exists && target_exists && is_source_newer(source_modified, target_modified)
}

/// Whether the catalog stage may reuse the cached artifact.
pub fn should_use_cached_catalog(catalog_exists: bool) -> (r: bool)
    ensures
        r == catalog_exists,
{
    catalog_exists
}

/// Whether the icon stage must run: new icon references were produced, or
/// no icon manifest exists yet.
pub fn should_process_icons(icon_count: usize, icons_manifest_exists: bool) -> (r: bool)
    ensures
        r == (icon_count > 0 || !icons_manifest_exists),
{
    icon_count > 0 || !icons_manifest_exists
}

/// Whether the final resource bundle must be rebuilt: some prior stage
/// regenerated output.
pub fn should_compile_resources(
    icons_regenerated: bool,
    templates_regenerated: bool,
    style_updated: bool,
) -> (r: bool)
    ensures
        r == (icons_regenerated || templates_regenerated || style_updated),
{
    icons_regenerated || templates_regenerated || style_updated
}

/// Decides the whole run. With a cached catalog artifact present, the
/// catalog stage — and with it every network request it would issue — is
/// skipped entirely; the icon stage runs only on new icon references or a
/// missing manifest; bundling runs only when some stage regenerated output.
pub fn plan_build(
    catalog_exists: bool,
    icon_count: usize,
    icons_manifest_exists: bool,
    templates_regenerated: bool,
    style_updated: bool,
) -> (p: BuildPlan)
    ensures
        p.fetch_catalog == !catalog_exists,
        catalog_exists ==> !p.fetch_catalog,
        p.run_icon_stage == (icon_count > 0 || !icons_manifest_exists),
        p.compile_resources == (p.run_icon_stage || templates_regenerated || style_updated),
{
    let fetch_catalog = !should_use_cached_catalog(catalog_exists);
    let run_icon_stage = should_process_icons(icon_count, icons_manifest_exists);
    let compile_resources = should_compile_resources(
        run_icon_stage,
        templates_regenerated,
        style_updated,
    );
    BuildPlan { fetch_catalog, run_icon_stage, compile_resources }
}

} // verus!
