use dygma_focus::devices::{
    defy_wired, defy_wired_bootloader, defy_wireless, raise_ansi, raise_iso,
};
use dygma_focus::error::FirmwareError;
use dygma_focus::firmware_downloader::{
    clean_version, download_firmware, download_firmware_defy, download_firmware_raise,
    expects_text, github_read, hex_payload, load_available_firmware_versions,
    obtain_firmware_file, release_fits, release_of_entry, wants_beta, Collected, Ctx, Download,
    FirmwareAsset, FirmwareFiles, FirmwareNode, FirmwareRelease, GitHubAsset, GitHubRelease,
    FW_MAJOR_VERSION,
};
use dygma_focus::hardware::{Hardware, KeyboardType, Product};

fn asset(name: &str) -> FirmwareAsset {
    FirmwareAsset { name: name.to_string(), url: format!("https://example.org/{}", name) }
}

fn release(name: &str, version: &str, beta: bool) -> FirmwareRelease {
    FirmwareRelease {
        name: name.to_string(),
        version: version.to_string(),
        body: format!("notes of {}", version),
        assets: vec![
            asset("Wired_neuron.uf2"),
            asset("Wireless_neuron.hex"),
            asset("keyscanner.bin"),
            asset("firmware.hex"),
        ],
        beta,
    }
}

fn entry(name: &str, beta: bool) -> GitHubRelease {
    GitHubRelease {
        name: name.to_string(),
        body: "notes".to_string(),
        beta,
        assets: vec![GitHubAsset { name: "firmware.hex".to_string(), url: "u".to_string() }],
    }
}

fn context(device: Hardware, version: &str) -> Ctx {
    Ctx { device, collected: Collected { version: version.to_string() }, allow_beta: true }
}

#[test]
fn versions_are_cleaned() {
    assert_eq!(clean_version("v1.2.3"), "1.2.3");
    assert_eq!(clean_version("1.2.3"), "1.2.3");
    assert_eq!(clean_version("v1.2.3-beta.1"), "1.2.3");
    assert_eq!(clean_version("vvv1.0.0-rc-2"), "1.0.0");
    assert_eq!(clean_version("1.0.0+build-7"), "1.0.0+build");
    assert_eq!(clean_version(""), "");
    assert_eq!(clean_version("v"), "");
    assert_eq!(clean_version("-1.0.0"), "");
    assert_eq!(clean_version("1v.0"), "1v.0");
    assert_eq!(FW_MAJOR_VERSION, "1.x");
}

#[test]
fn entries_of_the_list_become_releases() {
    let r = release_of_entry(&entry("Defy v1.2.3", false), false).unwrap();
    assert_eq!(r.name, "Defy");
    assert_eq!(r.version, "v1.2.3");
    assert_eq!(r.body, "notes");
    assert!(!r.beta);
    assert_eq!(r.assets, vec![FirmwareAsset { name: "firmware.hex".to_string(), url: "u".to_string() }]);
    // what follows a second space is not looked at
    let r = release_of_entry(&entry("Raise v1.0.0 (final) ", false), false).unwrap();
    assert_eq!(r.name, "Raise");
    assert_eq!(r.version, "v1.0.0");
    // two spaces in a row leave the version empty
    let r = release_of_entry(&entry("Raise  v1.0.0", false), false).unwrap();
    assert_eq!(r.version, "");
    let r = release_of_entry(&entry(" v1", false), false).unwrap();
    assert_eq!(r.name, "");
    assert_eq!(r.version, "v1");
    let r = release_of_entry(&entry("Defy ", false), false).unwrap();
    assert_eq!(r.version, "");
    // an entry without a space is no release
    assert_eq!(release_of_entry(&entry("Defy", false), true), None);
    assert_eq!(release_of_entry(&entry("", false), true), None);
}

#[test]
fn betas_are_listed_only_where_they_are_allowed() {
    assert_eq!(release_of_entry(&entry("Defy v1.2.3-beta", false), false), None);
    assert_eq!(release_of_entry(&entry("Defy v1.2.3", true), false), None);
    assert!(release_of_entry(&entry("Defy v1.2.3-beta", false), true).unwrap().beta);
    assert!(release_of_entry(&entry("Defy v1.2.3", true), true).unwrap().beta);
    assert!(release_of_entry(&entry("Defy v1.2.3-beta.2 x", false), true).unwrap().beta);
    // the mark is looked for in the version alone, and with its hyphen
    assert!(!release_of_entry(&entry("Defy-beta v1.2.3 -beta", false), false).unwrap().beta);
    assert!(!release_of_entry(&entry("Defy v1.2.3beta", false), false).unwrap().beta);
    assert!(!release_of_entry(&entry("Defy v1.2.3-bet", false), false).unwrap().beta);
}

#[test]
fn the_list_keeps_its_order() {
    let entries = vec![
        entry("Defy v1.2.3", false),
        entry("nothing", false),
        entry("Raise v1.0.0-beta", false),
        entry("Raise v0.9.0", false),
        entry("Defy v1.3.0", true),
    ];
    let versions = |allow: bool| -> Vec<String> {
        load_available_firmware_versions(&entries, allow).into_iter().map(|r| r.version).collect()
    };
    assert_eq!(versions(false), vec!["v1.2.3", "v0.9.0"]);
    assert_eq!(versions(true), vec!["v1.2.3", "v1.0.0-beta", "v0.9.0", "v1.3.0"]);
    assert_eq!(load_available_firmware_versions(&Vec::new(), true), Vec::new());
}

#[test]
fn a_release_fits_its_product() {
    let defy = release("Defy", "v1.2.3", false);
    assert_eq!(release_fits(&defy, Product::Defy, Some(true)), Ok(true));
    assert_eq!(release_fits(&defy, Product::Defy, Some(false)), Ok(false));
    assert_eq!(release_fits(&defy, Product::Defy, None), Err(FirmwareError::InvalidVersion));
    assert_eq!(release_fits(&defy, Product::Raise, None), Ok(false));
    assert_eq!(release_fits(&defy, Product::Raise, Some(true)), Ok(false));
    let raise = release("Raise", "whatever", false);
    assert_eq!(release_fits(&raise, Product::Raise, None), Ok(true));
    assert_eq!(release_fits(&raise, Product::Raise, Some(false)), Ok(true));
    assert_eq!(release_fits(&raise, Product::Defy, Some(true)), Ok(false));
}

#[test]
fn releases_for_a_defy_are_those_of_the_first_major_version() {
    let releases = vec![
        release("Defy", "v1.2.3", false),
        release("Defy", "v2.0.0", false),
        release("Raise", "v1.1.0", false),
        release("Defy", "v1.10.0", false),
        release("Defy", "v0.9.9", false),
        release("Defy", "v1.9.0-beta", true),
        release("defy", "v1.5.0", false),
    ];
    let info = github_read(&context(defy_wired(), "v1.2.3"), releases).unwrap();
    let versions: Vec<&str> = info.firmwares.iter().map(|r| r.version.as_str()).collect();
    // the versions fall as texts do, not as numbers do
    assert_eq!(versions, vec!["v1.9.0-beta", "v1.2.3", "v1.10.0"]);
    assert!(!info.is_updated);
    assert!(info.is_beta);
}

#[test]
fn a_device_is_up_to_date_where_it_runs_the_newest_release() {
    let releases = vec![release("Defy", "v1.2.3", false), release("Defy", "v1.4.0", false)];
    let info = github_read(&context(defy_wireless(), "v1.4.0"), releases.clone()).unwrap();
    assert!(info.is_updated);
    assert!(!info.is_beta);
    assert_eq!(info.firmwares[0].version, "v1.4.0");
    assert_eq!(info.firmwares[0].body, "notes of v1.4.0");
    let info = github_read(&context(defy_wireless(), "v1.2.3"), releases.clone()).unwrap();
    assert!(!info.is_updated);
    // while the bootloader runs, nothing is known of the firmware
    let mut booting = context(defy_wired_bootloader(), "v1.4.0");
    booting.device.info.product = Product::Defy;
    let info = github_read(&booting, releases).unwrap();
    assert!(!info.is_updated);
    assert!(!info.is_beta);
    assert_eq!(info.firmwares.len(), 2);
}

#[test]
fn releases_for_a_raise_are_not_held_against_a_version() {
    let releases = vec![
        release("Raise", "v1.1.0", false),
        release("Raise", "not a version", false),
        release("Defy", "v1.2.3", false),
        release("Raise", "v9.0.0", true),
        release("Raise", "v1.1.0", true),
    ];
    let info = github_read(&context(raise_ansi(), "v9.0.0"), releases).unwrap();
    let versions: Vec<(&str, bool)> =
        info.firmwares.iter().map(|r| (r.version.as_str(), r.beta)).collect();
    // releases of one version stay in the order in which they came
    assert_eq!(
        versions,
        vec![("v9.0.0", true), ("v1.1.0", false), ("v1.1.0", true), ("not a version", false)]
    );
    assert!(info.is_updated);
    assert!(info.is_beta);
}

#[test]
fn no_release_for_the_device_is_an_error() {
    assert_eq!(
        github_read(&context(raise_iso(), "v1"), vec![release("Defy", "v1.2.3", false)]),
        Err(FirmwareError::NoReleases)
    );
    assert_eq!(github_read(&context(raise_iso(), "v1"), Vec::new()), Err(FirmwareError::NoReleases));
    assert_eq!(
        github_read(&context(defy_wired(), "v1"), vec![release("Defy", "v3.0.0", false)]),
        Err(FirmwareError::NoReleases)
    );
}

#[test]
fn a_version_that_cannot_be_read_is_an_error_for_a_defy() {
    let releases = vec![
        release("Defy", "v1.2.3", false),
        release("Raise", "nonsense", false),
        release("Defy", "v1.2", false),
        release("Defy", "v1.4.0", false),
    ];
    assert_eq!(
        github_read(&context(defy_wired(), "v1.2.3"), releases),
        Err(FirmwareError::InvalidVersion)
    );
}

#[test]
fn betas_are_wanted_where_the_firmware_runs_and_the_operator_allows() {
    let mut ctx = context(defy_wired(), "v1");
    assert!(wants_beta(&ctx));
    ctx.allow_beta = false;
    assert!(!wants_beta(&ctx));
    let mut booting = context(defy_wired_bootloader(), "v1");
    assert!(!wants_beta(&booting));
    booting.allow_beta = false;
    assert!(!wants_beta(&booting));
}

#[test]
fn the_files_of_a_release_for_each_device() {
    let r = release("Defy", "v1.2.3", false);
    assert_eq!(
        download_firmware(&defy_wired(), &r),
        Ok(FirmwareFiles { firmware: asset("Wired_neuron.uf2"), sides: Some(asset("keyscanner.bin")) })
    );
    assert_eq!(
        download_firmware(&defy_wireless(), &r),
        Ok(FirmwareFiles {
            firmware: asset("Wireless_neuron.hex"),
            sides: Some(asset("keyscanner.bin"))
        })
    );
    assert_eq!(
        download_firmware(&raise_ansi(), &r),
        Ok(FirmwareFiles { firmware: asset("firmware.hex"), sides: None })
    );
    assert_eq!(
        download_firmware(&raise_iso(), &r),
        Ok(FirmwareFiles { firmware: asset("firmware.hex"), sides: None })
    );
    let mut odd = defy_wired();
    odd.info.keyboard_type = KeyboardType::ISO;
    assert_eq!(download_firmware(&odd, &r), Err(FirmwareError::InvalidDeviceType));
}

#[test]
fn files_that_a_release_lacks() {
    let mut r = release("Defy", "v1.2.3", false);
    r.assets.retain(|a| a.name != "keyscanner.bin");
    assert_eq!(download_firmware(&defy_wired(), &r), Err(FirmwareError::SidesNotFound));
    assert_eq!(
        download_firmware_defy(&r, "Wired_neuron.uf2"),
        Err(FirmwareError::SidesNotFound)
    );
    assert_eq!(download_firmware_defy(&r, "other.bin"), Err(FirmwareError::FirmwareNotFound));
    assert!(download_firmware_raise(&r).is_ok());
    r.assets.clear();
    assert_eq!(download_firmware_raise(&r), Err(FirmwareError::FirmwareNotFound));
    assert_eq!(download_firmware(&defy_wireless(), &r), Err(FirmwareError::FirmwareNotFound));
}

#[test]
fn the_first_file_of_a_name_is_taken() {
    let mut r = release("Raise", "v1", false);
    r.assets = vec![
        FirmwareAsset { name: "firmware.hex".to_string(), url: "first".to_string() },
        FirmwareAsset { name: "firmware.hex".to_string(), url: "second".to_string() },
    ];
    assert_eq!(download_firmware_raise(&r).unwrap().firmware.url, "first");
}

#[test]
fn files_are_fetched_as_text_where_they_are_hex_files() {
    assert!(expects_text("firmware.hex"));
    assert!(expects_text("Wireless_neuron.hex"));
    assert!(expects_text(".hex"));
    assert!(!expects_text("Wired_neuron.uf2"));
    assert!(!expects_text("keyscanner.bin"));
    assert!(!expects_text("firmware.hex.bin"));
    assert!(!expects_text("hex"));
    assert!(!expects_text(""));
    assert!(!expects_text("firmware.HEX"));
}

#[test]
fn the_digit_pairs_of_one_line() {
    assert_eq!(hex_payload(":0102:0304"), Some(vec![1, 2, 3, 4]));
    assert_eq!(hex_payload("junk:0a0B"), Some(vec![0x0a, 0x0b]));
    assert_eq!(hex_payload(":"), Some(vec![]));
    assert_eq!(hex_payload("::::"), Some(vec![]));
    assert_eq!(hex_payload(""), Some(vec![]));
    assert_eq!(hex_payload("0102"), Some(vec![]));
    assert_eq!(hex_payload(":010"), None);
    assert_eq!(hex_payload(":01 02"), None);
    assert_eq!(hex_payload(":0g"), None);
    assert_eq!(hex_payload(":01\u{e9}2"), None);
    assert_eq!(hex_payload(":0:1"), Some(vec![1]));
}

#[test]
fn an_image_from_the_text_of_a_hex_file() {
    let text = ":020000040800F2\r\n:0400000001020304F2\n\n:00000001FF\r\n";
    let node = obtain_firmware_file("firmware.hex", Download::Text(text.to_string())).unwrap();
    assert_eq!(node.name, "firmware.hex");
    assert_eq!(node.hex_raw.as_deref(), Some(text));
    assert_eq!(
        node.bytes,
        vec![
            0x02, 0x00, 0x00, 0x04, 0x08, 0x00, 0xF2, 0x04, 0x00, 0x00, 0x00, 0x01, 0x02, 0x03,
            0x04, 0xF2, 0x00, 0x00, 0x00, 0x01, 0xFF
        ]
    );
    assert_eq!(
        obtain_firmware_file("firmware.hex", Download::Text(":01\r\n:2".to_string())),
        Err(FirmwareError::InvalidHex)
    );
    assert_eq!(
        obtain_firmware_file("firmware.hex", Download::Text(":01 02".to_string())),
        Err(FirmwareError::InvalidHex)
    );
    assert_eq!(
        obtain_firmware_file("x.hex", Download::Text(String::new())),
        Ok(FirmwareNode { name: "x.hex".to_string(), bytes: vec![], hex_raw: Some(String::new()) })
    );
}

#[test]
fn an_image_from_the_bytes_of_a_file() {
    assert_eq!(
        obtain_firmware_file("keyscanner.bin", Download::Bytes(vec![0, 1, 2, 255])),
        Ok(FirmwareNode {
            name: "keyscanner.bin".to_string(),
            bytes: vec![0, 1, 2, 255],
            hex_raw: None
        })
    );
}

#[test]
fn the_releases_that_an_operator_chooses_from() {
    let releases = vec![
        release("Defy", "v1.2.3", false),
        release("Raise", "v1.1.0", false),
        release("Defy", "v9.9.9", true),
        release("defy", "v1.0.0", false),
    ];
    let versions = |hardware: &Hardware| -> Vec<String> {
        dygma_focus::firmware_downloader::releases_for(releases.clone(), hardware)
            .into_iter()
            .map(|r| r.version)
            .collect()
    };
    assert_eq!(versions(&defy_wired()), vec!["v1.2.3", "v9.9.9"]);
    assert_eq!(versions(&raise_iso()), vec!["v1.1.0"]);
    assert!(dygma_focus::firmware_downloader::releases_for(Vec::new(), &raise_iso()).is_empty());
}
