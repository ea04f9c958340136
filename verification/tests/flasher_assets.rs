use msu2_display::flasher::assets::{
    fixed_flash_plan, validate_asset, validate_image, validate_plan, AssetError, EmbeddedAssets, FlashAsset,
    DIGIT_RESOURCE_PAGE, DIRECTORY_PAGES, HOST_DHCP_FAILED_PAGE, HOST_IP_BG_PAGE, HOST_PENDING_PAGE, MONO_LOGO_PAGES,
    OFFLINE_BLANK_PAGE, OFFLINE_STATIC_PAGE, OFFLINE_VISIBLE_PAGE, PAGE_BYTES, PANEL_CONFIG_PAGE,
    RESOURCE_DIRECTORY_PAGE, RGB_IMAGE_BYTES, RGB_IMAGE_PAGES, STARTUP_LOGO_PAGE,
};

fn sized(len: usize) -> &'static [u8] {
    Box::leak(vec![0u8; len].into_boxed_slice())
}

fn assets_of_right_size() -> EmbeddedAssets {
    EmbeddedAssets {
        offline: sized(RGB_IMAGE_BYTES),
        acquiring: sized(RGB_IMAGE_BYTES),
        dhcp_failed: sized(RGB_IMAGE_BYTES),
        ip_bg: sized(RGB_IMAGE_BYTES),
        startup_logo: sized(PAGE_BYTES * MONO_LOGO_PAGES as usize),
        resource_directory: sized(PAGE_BYTES),
    }
}

#[test]
fn compact_layout_constants_are_stable() {
    assert_eq!(OFFLINE_VISIBLE_PAGE, 0);
    assert_eq!(OFFLINE_BLANK_PAGE, 100);
    assert_eq!(OFFLINE_STATIC_PAGE, 200);
    assert_eq!(HOST_PENDING_PAGE, 300);
    assert_eq!(HOST_DHCP_FAILED_PAGE, 400);
    assert_eq!(HOST_IP_BG_PAGE, 500);
    assert_eq!(STARTUP_LOGO_PAGE, 3820);
    assert_eq!(DIGIT_RESOURCE_PAGE, 4026);
    assert_eq!(RESOURCE_DIRECTORY_PAGE, 4094);
    assert_eq!(PANEL_CONFIG_PAGE, 4095);
}

#[test]
fn flash_asset_end_page_uses_page_count() {
    let bytes = [0u8; PAGE_BYTES * 6];
    let asset = FlashAsset { label: "logo", start_page: STARTUP_LOGO_PAGE, page_count: MONO_LOGO_PAGES, bytes: &bytes };
    assert_eq!(asset.expected_len(), PAGE_BYTES * 6);
    assert_eq!(asset.end_page(), 3825);
}

#[test]
fn validates_variable_sized_assets() {
    let rgb = [0u8; RGB_IMAGE_BYTES];
    let logo = [0u8; PAGE_BYTES * 6];
    let directory = [0u8; PAGE_BYTES];
    validate_asset(&FlashAsset { label: "rgb", start_page: HOST_PENDING_PAGE, page_count: RGB_IMAGE_PAGES, bytes: &rgb })
        .unwrap();
    validate_asset(&FlashAsset { label: "logo", start_page: STARTUP_LOGO_PAGE, page_count: MONO_LOGO_PAGES, bytes: &logo })
        .unwrap();
    validate_asset(&FlashAsset {
        label: "directory",
        start_page: RESOURCE_DIRECTORY_PAGE,
        page_count: DIRECTORY_PAGES,
        bytes: &directory,
    })
    .unwrap();
}

#[test]
fn compact_plan_writes_expected_assets_in_order() {
    let assets = assets_of_right_size();
    let plan = fixed_flash_plan(&assets);
    let labels: Vec<&'static str> = plan.iter().map(|asset| asset.label).collect();
    assert_eq!(
        labels,
        vec!["offline_visible", "offline_blank", "offline_static", "pending", "dhcp_failed", "ip_bg", "startup_logo", "resource_directory",]
    );
    assert_eq!(plan[0].start_page, OFFLINE_VISIBLE_PAGE);
    assert_eq!(plan[1].start_page, OFFLINE_BLANK_PAGE);
    assert_eq!(plan[2].start_page, OFFLINE_STATIC_PAGE);
    assert_eq!(plan[3].start_page, HOST_PENDING_PAGE);
    assert_eq!(plan[4].start_page, HOST_DHCP_FAILED_PAGE);
    assert_eq!(plan[5].start_page, HOST_IP_BG_PAGE);
    assert_eq!(plan[6].start_page, STARTUP_LOGO_PAGE);
    assert_eq!(plan[7].start_page, RESOURCE_DIRECTORY_PAGE);
}

#[test]
fn compact_plan_preserves_official_font_digit_and_panel_pages() {
    let assets = assets_of_right_size();
    let plan = fixed_flash_plan(&assets);
    validate_plan(&plan).unwrap();
    for asset in &plan {
        assert!(!(asset.start_page <= 3778 && asset.end_page() >= 3651), "{:?}", asset);
        assert!(!(asset.start_page <= 4037 && asset.end_page() >= DIGIT_RESOURCE_PAGE), "{:?}", asset);
        assert!(asset.end_page() < PANEL_CONFIG_PAGE, "{:?}", asset);
    }
}

#[test]
fn wrong_size_is_rejected() {
    let err = validate_image("bad", &[0u8; 12]).unwrap_err();
    assert_eq!(err.to_string(), "bad has 12 bytes, expected 25600");
}

#[test]
fn plan_reaching_protected_pages_is_rejected() {
    let bytes = [0u8; PAGE_BYTES * 2];
    let plan = [FlashAsset { label: "late", start_page: 3777, page_count: 2, bytes: &bytes }];
    let err = validate_plan(&plan).unwrap_err();
    assert_eq!(err, AssetError::LayoutOverlapsPreservedPages { label: "late", end_page: 3778, preserved_start: 3651 });
    assert_eq!(err.to_string(), "late would end at page 3778, which reaches preserved page 3651");
    let panel = [FlashAsset { label: "panel", start_page: 4095, page_count: 1, bytes: &bytes[..PAGE_BYTES] }];
    assert_eq!(
        validate_plan(&panel).unwrap_err(),
        AssetError::LayoutOverlapsPreservedPages { label: "panel", end_page: 4095, preserved_start: 4095 }
    );
}

#[test]
fn plan_reports_the_first_bad_asset() {
    let good = [0u8; PAGE_BYTES];
    let short = [0u8; 10];
    let plan = [
        FlashAsset { label: "a", start_page: 0, page_count: 1, bytes: &good },
        FlashAsset { label: "b", start_page: 1, page_count: 1, bytes: &short },
        FlashAsset { label: "c", start_page: 4095, page_count: 1, bytes: &good },
    ];
    assert_eq!(validate_plan(&plan).unwrap_err(), AssetError::WrongSize { label: "b", actual: 10, expected: 256 });
}
