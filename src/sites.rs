//! The sites built on the templates, each by its configuration.
use crate::iken;
use crate::liliana;
use crate::models::opt_view;
use vstd::prelude::*;

verus! {

/// ProManga, on the iken template.
pub fn pro_manga() -> (r: iken::Params)
    ensures
        r.base_url@ == "https://promanga.net"@,
        r.api_url is None,
        r.use_slug_series_keys,
        r.fetch_full_chapter_list,
{
    iken::Params {
        base_url: "https://promanga.net".to_string(),
        api_url: None,
        use_slug_series_keys: true,
        fetch_full_chapter_list: true,
    }
}

/// AuroraScans, on the iken template.
pub fn aurora_scans() -> (r: iken::Params)
    ensures
        r.base_url@ == "https://aurorascans.com"@,
        opt_view(r.api_url) == Some("https://api.aurorascans.com"@),
        !r.use_slug_series_keys,
        !r.fetch_full_chapter_list,
{
    iken::Params {
        base_url: "https://aurorascans.com".to_string(),
        api_url: Some("https://api.aurorascans.com".to_string()),
        use_slug_series_keys: false,
        fetch_full_chapter_list: false,
    }
}

/// HiveScans, on the iken template.
pub fn hive_scans() -> (r: iken::Params)
    ensures
        r.base_url@ == "https://hivetoons.org"@,
        opt_view(r.api_url) == Some("https://api.hivetoons.org"@),
        !r.use_slug_series_keys,
        !r.fetch_full_chapter_list,
{
    iken::Params {
        base_url: "https://hivetoons.org".to_string(),
        api_url: Some("https://api.hivetoons.org".to_string()),
        use_slug_series_keys: false,
        fetch_full_chapter_list: false,
    }
}

/// NyxScans, on the iken template.
pub fn nyx_scans() -> (r: iken::Params)
    ensures
        r.base_url@ == "https://nyxscans.com"@,
        opt_view(r.api_url) == Some("https://api.nyxscans.com"@),
        !r.use_slug_series_keys,
        !r.fetch_full_chapter_list,
{
    iken::Params {
        base_url: "https://nyxscans.com".to_string(),
        api_url: Some("https://api.nyxscans.com".to_string()),
        use_slug_series_keys: false,
        fetch_full_chapter_list: false,
    }
}

/// VortexScans, on the iken template.
pub fn vortex_scans() -> (r: iken::Params)
    ensures
        r.base_url@ == "https://vortexscans.org"@,
        opt_view(r.api_url) == Some("https://api.vortexscans.org"@),
        !r.use_slug_series_keys,
        !r.fetch_full_chapter_list,
{
    iken::Params {
        base_url: "https://vortexscans.org".to_string(),
        api_url: Some("https://api.vortexscans.org".to_string()),
        use_slug_series_keys: false,
        fetch_full_chapter_list: false,
    }
}

/// MagusManga, on the iken template.
pub fn magus_manga() -> (r: iken::Params)
    ensures
        r.base_url@ == "https://eternalmangas.com"@,
        opt_view(r.api_url) == Some("https://api.eternalmangas.com"@),
        !r.use_slug_series_keys,
        !r.fetch_full_chapter_list,
{
    iken::Params {
        base_url: "https://eternalmangas.com".to_string(),
        api_url: Some("https://api.eternalmangas.com".to_string()),
        use_slug_series_keys: false,
        fetch_full_chapter_list: false,
    }
}

/// MangaSect, on the liliana template.
pub fn manga_sect() -> (r: liliana::Params)
    ensures
        r.base_url@ == "https://mangasect.net"@,
        r.uses_post_search,
{
    liliana::Params { base_url: "https://mangasect.net".to_string(), uses_post_search: true }
}

/// Manhuagold, on the liliana template.
pub fn manhuagold() -> (r: liliana::Params)
    ensures
        r.base_url@ == "https://manhuagold.top"@,
        r.uses_post_search,
{
    liliana::Params { base_url: "https://manhuagold.top".to_string(), uses_post_search: true }
}

/// ManhuaplusOrg, on the liliana template.
pub fn manhuaplus_org() -> (r: liliana::Params)
    ensures
        r.base_url@ == "https://manhuaplus.org"@,
        !r.uses_post_search,
{
    liliana::Params { base_url: "https://manhuaplus.org".to_string(), uses_post_search: false }
}

/// Manga1000, on the liliana template.
pub fn manga1000() -> (r: liliana::Params)
    ensures
        r.base_url@ == "https://manga1000.top"@,
        !r.uses_post_search,
{
    liliana::Params { base_url: "https://manga1000.top".to_string(), uses_post_search: false }
}

/// Raw1001, on the liliana template.
pub fn raw1001() -> (r: liliana::Params)
    ensures
        r.base_url@ == "https://raw1001.net"@,
        !r.uses_post_search,
{
    liliana::Params { base_url: "https://raw1001.net".to_string(), uses_post_search: false }
}

/// RawKuro, on the liliana template.
pub fn raw_kuro() -> (r: liliana::Params)
    ensures
        r.base_url@ == "https://rawkuro.net"@,
        !r.uses_post_search,
{
    liliana::Params { base_url: "https://rawkuro.net".to_string(), uses_post_search: false }
}

/// DocTruyen5s, on the liliana template.
pub fn doc_truyen5s() -> (r: liliana::Params)
    ensures
        r.base_url@ == "https://dongmoe.com"@,
        !r.uses_post_search,
{
    liliana::Params { base_url: "https://dongmoe.com".to_string(), uses_post_search: false }
}

} // verus!
