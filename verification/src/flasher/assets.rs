//! The compact flash layout: which image goes to which flash pages, and the
//! checks that every image has its exact size and that no image reaches the
//! pages the screen's own firmware data lives in.

use vstd::prelude::*;

use crate::host::decimal::{dec_u64, u64_to_string};
use crate::text::{push_str, string_of};

verus! {

pub const PAGE_BYTES: usize = 256;

pub const RGB_IMAGE_BYTES: usize = 25600;

pub const IMAGE_BYTES: usize = 25600;

pub const RGB_IMAGE_PAGES: u16 = 100;

pub const PAGES_PER_IMAGE: u16 = 100;

pub const MONO_LOGO_PAGES: u16 = 6;

pub const DIRECTORY_PAGES: u16 = 1;

pub const OFFLINE_VISIBLE_PAGE: u16 = 0;

pub const OFFLINE_BLANK_PAGE: u16 = 100;

pub const OFFLINE_STATIC_PAGE: u16 = 200;

pub const HOST_PENDING_PAGE: u16 = 300;

pub const HOST_DHCP_FAILED_PAGE: u16 = 400;

pub const HOST_IP_BG_PAGE: u16 = 500;

pub const STARTUP_LOGO_PAGE: u16 = 3820;

pub const DIGIT_RESOURCE_PAGE: u16 = 4026;

pub const RESOURCE_DIRECTORY_PAGE: u16 = 4094;

pub const PANEL_CONFIG_PAGE: u16 = 4095;

/// The page ranges (inclusive) that are never written: the official font,
/// the digit resources and their neighbours, and the panel configuration.
pub open spec fn protected_ranges_spec() -> Seq<(u16, u16)> {
    seq![(3651u16, 3778u16), (DIGIT_RESOURCE_PAGE, 4037u16), (4038u16, 4044u16), (PANEL_CONFIG_PAGE, PANEL_CONFIG_PAGE)]
}

fn protected_ranges() -> (r: [(u16, u16); 4])
    ensures
        r@ == protected_ranges_spec(),
{
    let r = [(3651u16, 3778u16), (DIGIT_RESOURCE_PAGE, 4037u16), (4038u16, 4044u16), (PANEL_CONFIG_PAGE, PANEL_CONFIG_PAGE)];
    assert(r@ =~= protected_ranges_spec());
    r
}

#[derive(Debug, Clone, Copy, PartialEq, Eq)]
pub enum AssetError {
    WrongSize { label: &'static str, actual: usize, expected: usize },
    LayoutOverlapsPreservedPages { label: &'static str, end_page: u16, preserved_start: u16 },
}

/// The message of an asset error.
pub open spec fn asset_error_text(e: AssetError) -> Seq<char> {
    match e {
        AssetError::WrongSize { label, actual, expected } => label@ + " has "@ + dec_u64(actual as nat)
            + " bytes, expected "@ + dec_u64(expected as nat),
        AssetError::LayoutOverlapsPreservedPages { label, end_page, preserved_start } => label@
            + " would end at page "@ + dec_u64(end_page as nat) + ", which reaches preserved page "@ + dec_u64(
            preserved_start as nat,
        ),
    }
}

impl AssetError {
    pub fn to_string(&self) -> (r: String)
        ensures
            r@ == asset_error_text(*self),
    {
        match self {
            AssetError::WrongSize { label, actual, expected } => {
                let mut s = string_of(label);
                push_str(&mut s, " has ");
                push_str(&mut s, u64_to_string(*actual as u64).as_str());
                push_str(&mut s, " bytes, expected ");
                push_str(&mut s, u64_to_string(*expected as u64).as_str());
                s
            },
            AssetError::LayoutOverlapsPreservedPages { label, end_page, preserved_start } => {
                let mut s = string_of(label);
                push_str(&mut s, " would end at page ");
                push_str(&mut s, u64_to_string(*end_page as u64).as_str());
                push_str(&mut s, ", which reaches preserved page ");
                push_str(&mut s, u64_to_string(*preserved_start as u64).as_str());
                s
            },
        }
    }
}

/// An image or data block and the flash pages it is written to.
#[derive(Debug, Clone, Copy)]
pub struct FlashAsset<'a> {
    pub label: &'static str,
    pub start_page: u16,
    pub page_count: u16,
    pub bytes: &'a [u8],
}

pub type FlashImage<'a> = FlashAsset<'a>;

/// The last page of an asset can be computed without leaving `u16`.
pub open spec fn end_page_defined(a: FlashAsset) -> bool {
    1 <= a.start_page + a.page_count <= u16::MAX
}

pub open spec fn end_page_spec(a: FlashAsset) -> int {
    a.start_page + a.page_count - 1
}

impl<'a> FlashAsset<'a> {
    pub fn expected_len(&self) -> (r: usize)
        ensures
            r == self.page_count * PAGE_BYTES,
    {
        self.page_count as usize * PAGE_BYTES
    }

    pub fn end_page(&self) -> (r: u16)
        requires
            end_page_defined(*self),
        ensures
            r == end_page_spec(*self),
    {
        self.start_page + self.page_count - 1
    }
}

/// The images built into the flasher.
#[derive(Debug, Clone, Copy)]
pub struct EmbeddedAssets {
    pub offline: &'static [u8],
    pub acquiring: &'static [u8],
    pub dhcp_failed: &'static [u8],
    pub ip_bg: &'static [u8],
    pub startup_logo: &'static [u8],
    pub resource_directory: &'static [u8],
}

/// Whether an asset has exactly the bytes of its pages.
pub open spec fn size_ok(a: FlashAsset) -> bool {
    a.bytes@.len() == a.page_count * PAGE_BYTES
}

pub open spec fn overlaps(a: FlashAsset, range: (u16, u16)) -> bool {
    a.start_page <= range.1 && end_page_spec(a) >= range.0
}

/// The first protected range, from index `k` on, that an asset reaches.
pub open spec fn first_overlap(a: FlashAsset, k: int) -> Option<(u16, u16)>
    decreases 4 - k,
{
    if k < 0 || k >= 4 {
        None
    } else if overlaps(a, protected_ranges_spec()[k]) {
        Some(protected_ranges_spec()[k])
    } else {
        first_overlap(a, k + 1)
    }
}

/// What is wrong with one asset of a plan, if anything.
pub open spec fn item_error(a: FlashAsset) -> Option<AssetError> {
    if !size_ok(a) {
        Some(
            AssetError::WrongSize {
                label: a.label,
                actual: a.bytes@.len() as usize,
                expected: (a.page_count * PAGE_BYTES) as usize,
            },
        )
    } else {
        match first_overlap(a, 0) {
            Some(range) => Some(
                AssetError::LayoutOverlapsPreservedPages {
                    label: a.label,
                    end_page: end_page_spec(a) as u16,
                    preserved_start: range.0,
                },
            ),
            None => None,
        }
    }
}

/// The error of the first asset of a plan that has one.
pub open spec fn plan_error(plan: Seq<FlashAsset>) -> Option<AssetError>
    decreases plan.len(),
{
    if plan.len() == 0 {
        None
    } else {
        match item_error(plan[0]) {
            Some(e) => Some(e),
            None => plan_error(plan.drop_first()),
        }
    }
}

pub fn validate_asset(asset: &FlashAsset<'_>) -> (r: Result<(), AssetError>)
    ensures
        r is Ok <==> size_ok(*asset),
        r matches Err(e) ==> e == (AssetError::WrongSize {
            label: asset.label,
            actual: asset.bytes@.len() as usize,
            expected: (asset.page_count * PAGE_BYTES) as usize,
        }),
{
    let expected = asset.expected_len();
    if asset.bytes.len() != expected {
        return Err(AssetError::WrongSize { label: asset.label, actual: asset.bytes.len(), expected });
    }
    Ok(())
}

/// Checks that `bytes` is exactly one full-screen image.
pub fn validate_image(label: &'static str, bytes: &[u8]) -> (r: Result<(), AssetError>)
    ensures
        r is Ok <==> bytes@.len() == RGB_IMAGE_BYTES,
        r matches Err(e) ==> e == (AssetError::WrongSize {
            label,
            actual: bytes@.len() as usize,
            expected: RGB_IMAGE_BYTES,
        }),
{
    validate_asset(&FlashAsset { label, start_page: 0, page_count: RGB_IMAGE_PAGES, bytes })
}

fn check_overlaps(item: &FlashAsset<'_>) -> (r: Result<(), AssetError>)
    requires
        end_page_defined(*item),
        size_ok(*item),
    ensures
        match item_error(*item) {
            None => r is Ok,
            Some(e) => r == Err::<(), AssetError>(e),
        },
{
    let ranges = protected_ranges();
    let end = item.end_page();
    let mut k: usize = 0;
    while k < 4
        invariant
            ranges@ == protected_ranges_spec(),
            size_ok(*item),
            end == end_page_spec(*item),
            k <= 4,
            first_overlap(*item, 0) == first_overlap(*item, k as int),
        decreases 4 - k,
    {
        let (start, last) = ranges[k];
        assert(protected_ranges_spec()[k as int] == (start, last));
        if item.start_page <= last && end >= start {
            assert(first_overlap(*item, k as int) == Some(protected_ranges_spec()[k as int]));
            assert(end_page_spec(*item) as u16 == end);
            assert(item_error(*item) == Some(
                AssetError::LayoutOverlapsPreservedPages { label: item.label, end_page: end, preserved_start: start },
            ));
            return Err(AssetError::LayoutOverlapsPreservedPages { label: item.label, end_page: end, preserved_start: start });
        }
        k = k + 1;
    }
    Ok(())
}

/// Every asset before `i` passes its checks.
pub open spec fn passes_before(plan: Seq<FlashAsset>, i: int) -> bool {
    forall|j: int| 0 <= j < i ==> #[trigger] item_error(plan[j]) is None
}

/// The last page is computed for the assets a check reaches with the right
/// size: those must have one.
pub open spec fn reached_end_pages_defined(plan: Seq<FlashAsset>) -> bool {
    forall|i: int|
        0 <= i < plan.len() && passes_before(plan, i) && size_ok(#[trigger] plan[i]) ==> end_page_defined(plan[i])
}

/// Checks every asset of a plan in order and reports the first problem:
/// a wrong size, or pages that reach a protected range.
pub fn validate_plan(plan: &[FlashAsset<'_>]) -> (r: Result<(), AssetError>)
    requires
        reached_end_pages_defined(plan@),
    ensures
        match plan_error(plan@) {
            None => r is Ok,
            Some(e) => r == Err::<(), AssetError>(e),
        },
{
    let mut i: usize = 0;
    assert(plan@.subrange(0, plan@.len() as int) =~= plan@);
    while i < plan.len()
        invariant
            i <= plan@.len(),
            reached_end_pages_defined(plan@),
            passes_before(plan@, i as int),
            plan_error(plan@) == plan_error(plan@.subrange(i as int, plan@.len() as int)),
        decreases plan@.len() - i,
    {
        let item = &plan[i];
        assert(plan@.subrange(i as int, plan@.len() as int)[0] == plan@[i as int]);
        assert(plan@.subrange(i as int, plan@.len() as int).drop_first() =~= plan@.subrange(
            i + 1,
            plan@.len() as int,
        ));
        validate_asset(item)?;
        assert(size_ok(plan@[i as int]) && passes_before(plan@, i as int));
        check_overlaps(item)?;
        assert(item_error(plan@[i as int]) is None);
        i = i + 1;
    }
    Ok(())
}

pub open spec fn asset_is(a: FlashAsset, label: Seq<char>, start: u16, count: u16, bytes: Seq<u8>) -> bool {
    a.label@ == label && a.start_page == start && a.page_count == count && a.bytes@ == bytes
}

/// The compact layout: the offline screen at page 0 (and again at 200, with
/// the IP background as the blank frame at 100), then the host's pending,
/// DHCP-failed and IP-background screens, the startup logo and the resource
/// directory.
pub open spec fn fixed_plan_ok(plan: Seq<FlashAsset>, assets: EmbeddedAssets) -> bool {
    &&& plan.len() == 8
    &&& asset_is(plan[0], "offline_visible"@, OFFLINE_VISIBLE_PAGE, RGB_IMAGE_PAGES, assets.offline@)
    &&& asset_is(plan[1], "offline_blank"@, OFFLINE_BLANK_PAGE, RGB_IMAGE_PAGES, assets.ip_bg@)
    &&& asset_is(plan[2], "offline_static"@, OFFLINE_STATIC_PAGE, RGB_IMAGE_PAGES, assets.offline@)
    &&& asset_is(plan[3], "pending"@, HOST_PENDING_PAGE, RGB_IMAGE_PAGES, assets.acquiring@)
    &&& asset_is(plan[4], "dhcp_failed"@, HOST_DHCP_FAILED_PAGE, RGB_IMAGE_PAGES, assets.dhcp_failed@)
    &&& asset_is(plan[5], "ip_bg"@, HOST_IP_BG_PAGE, RGB_IMAGE_PAGES, assets.ip_bg@)
    &&& asset_is(plan[6], "startup_logo"@, STARTUP_LOGO_PAGE, MONO_LOGO_PAGES, assets.startup_logo@)
    &&& asset_is(
        plan[7],
        "resource_directory"@,
        RESOURCE_DIRECTORY_PAGE,
        DIRECTORY_PAGES,
        assets.resource_directory@,
    )
}

pub fn fixed_flash_plan<'a>(assets: &'a EmbeddedAssets) -> (r: Vec<FlashAsset<'a>>)
    ensures
        fixed_plan_ok(r@, *assets),
{
    let mut plan = Vec::new();
    plan.push(FlashAsset { label: "offline_visible", start_page: OFFLINE_VISIBLE_PAGE, page_count: RGB_IMAGE_PAGES, bytes: assets.offline });
    plan.push(FlashAsset { label: "offline_blank", start_page: OFFLINE_BLANK_PAGE, page_count: RGB_IMAGE_PAGES, bytes: assets.ip_bg });
    plan.push(FlashAsset { label: "offline_static", start_page: OFFLINE_STATIC_PAGE, page_count: RGB_IMAGE_PAGES, bytes: assets.offline });
    plan.push(FlashAsset { label: "pending", start_page: HOST_PENDING_PAGE, page_count: RGB_IMAGE_PAGES, bytes: assets.acquiring });
    plan.push(FlashAsset { label: "dhcp_failed", start_page: HOST_DHCP_FAILED_PAGE, page_count: RGB_IMAGE_PAGES, bytes: assets.dhcp_failed });
    plan.push(FlashAsset { label: "ip_bg", start_page: HOST_IP_BG_PAGE, page_count: RGB_IMAGE_PAGES, bytes: assets.ip_bg });
    plan.push(FlashAsset { label: "startup_logo", start_page: STARTUP_LOGO_PAGE, page_count: MONO_LOGO_PAGES, bytes: assets.startup_logo });
    plan.push(FlashAsset { label: "resource_directory", start_page: RESOURCE_DIRECTORY_PAGE, page_count: DIRECTORY_PAGES, bytes: assets.resource_directory });
    plan
}

/// A plan that passes validation writes every asset with exactly its pages'
/// bytes, and none of them reaches a protected page.
pub proof fn lemma_valid_plan_spares_protected_pages(plan: Seq<FlashAsset>)
    requires
        plan_error(plan) is None,
    ensures
        forall|i: int, k: int|
            0 <= i < plan.len() && 0 <= k < 4 ==> size_ok(#[trigger] plan[i]) && !overlaps(
                plan[i],
                #[trigger] protected_ranges_spec()[k],
            ),
    decreases plan.len(),
{
    if plan.len() > 0 {
        lemma_valid_plan_spares_protected_pages(plan.drop_first());
        assert forall|i: int, k: int|
            0 <= i < plan.len() && 0 <= k < 4 implies size_ok(#[trigger] plan[i]) && !overlaps(
            plan[i],
            #[trigger] protected_ranges_spec()[k],
        ) by {
            if i == 0 {
                lemma_no_first_overlap(plan[0], 0, k);
            } else {
                assert(plan[i] == plan.drop_first()[i - 1]);
            }
        }
    }
}

proof fn lemma_no_first_overlap(a: FlashAsset, from: int, k: int)
    requires
        0 <= from <= k < 4,
        first_overlap(a, from) is None,
    ensures
        !overlaps(a, protected_ranges_spec()[k]),
    decreases k - from,
{
    if from < k {
        lemma_no_first_overlap(a, from + 1, k);
    }
}

/// With images of the right sizes, the fixed plan passes validation.
pub proof fn lemma_fixed_plan_is_valid(plan: Seq<FlashAsset>, assets: EmbeddedAssets)
    requires
        fixed_plan_ok(plan, assets),
        assets.offline@.len() == RGB_IMAGE_BYTES,
        assets.acquiring@.len() == RGB_IMAGE_BYTES,
        assets.dhcp_failed@.len() == RGB_IMAGE_BYTES,
        assets.ip_bg@.len() == RGB_IMAGE_BYTES,
        assets.startup_logo@.len() == MONO_LOGO_PAGES * PAGE_BYTES,
        assets.resource_directory@.len() == DIRECTORY_PAGES * PAGE_BYTES,
    ensures
        plan_error(plan) is None,
        forall|i: int| 0 <= i < plan.len() ==> end_page_defined(#[trigger] plan[i]),
{
    reveal_with_fuel(plan_error, 9);
    reveal_with_fuel(first_overlap, 5);
    assert(plan.drop_first().drop_first().drop_first().drop_first().drop_first().drop_first().drop_first().drop_first().len() == 0);
}

} // verus!
