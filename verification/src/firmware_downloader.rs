//! Firmware releases and the files of one release.

use crate::error::FirmwareError;
use crate::hardware::{Hardware, KeyboardType, Product};
use crate::ihex::hex_pair;
use crate::text::{
    chars_of, contains_text, copy_range, ends_with, find_char, first_at, has_part, has_suffix,
    remove_char, without_char,
    same_text, string_of, text_before_or_same, text_le, lemma_text_le_reflexive,
    lemma_text_le_total, lemma_text_le_transitive,
};
use vstd::prelude::*;

verus! {

/// The versions of the Defy firmware that this library can flash.
pub const FW_MAJOR_VERSION: &'static str = "1.x";

/// One release of the firmware of one product.
#[derive(Debug, Clone, PartialEq, Eq)]
pub struct FirmwareRelease {
    /// The product family that the release is for.
    pub name: String,
    /// The version of the release.
    pub version: String,
    /// The release notes.
    pub body: String,
    /// The files of the release.
    pub assets: Vec<FirmwareAsset>,
    /// Whether the release is a beta.
    pub beta: bool,
}

/// One file of a release.
#[derive(Debug, Clone, PartialEq, Eq)]
pub struct FirmwareAsset {
    pub name: String,
    pub url: String,
}

/// The images of one release for one device.
#[derive(Debug, Clone, PartialEq, Eq)]
pub struct Firmware {
    /// The image of the primary controller.
    pub firmware: FirmwareNode,
    /// The image of the side controllers, where the device has them.
    pub sides: Option<FirmwareNode>,
}

/// One image.
#[derive(Debug, Clone, PartialEq, Eq)]
pub struct FirmwareNode {
    /// The name of the file.
    pub name: String,
    /// The image as bytes.
    pub bytes: Vec<u8>,
    /// The text of the file, where it is an Intel-HEX file.
    pub hex_raw: Option<String>,
}

/// What is known of the firmware that a device runs.
#[derive(Debug, Clone, PartialEq, Eq)]
pub struct Collected {
    pub version: String,
}

/// A device, the firmware that it runs, and whether betas are wanted.
#[derive(Debug, Clone, PartialEq, Eq)]
pub struct Ctx {
    pub device: Hardware,
    pub collected: Collected,
    pub allow_beta: bool,
}

/// The files of a release that are to be fetched for a device.
#[derive(Debug, Clone, PartialEq, Eq)]
pub struct FirmwareFiles {
    /// The image of the primary controller.
    pub firmware: FirmwareAsset,
    /// The image of the side controllers, where the device has them.
    pub sides: Option<FirmwareAsset>,
}

/// What was fetched for a file of a release.
#[derive(Debug, Clone, PartialEq, Eq)]
pub enum Download {
    /// The text of an Intel-HEX file.
    Text(String),
    /// The bytes of any other file.
    Bytes(Vec<u8>),
}

/// A release as the release server lists it.
#[derive(Debug, Clone, PartialEq, Eq)]
pub struct GitHubRelease {
    /// The product family and the version, separated by a space.
    pub name: String,
    /// The release notes.
    pub body: String,
    /// Whether the server marks the release as a prerelease.
    pub beta: bool,
    /// The files of the release.
    pub assets: Vec<GitHubAsset>,
}

/// A file of a release as the release server lists it.
#[derive(Debug, Clone, PartialEq, Eq)]
pub struct GitHubAsset {
    pub name: String,
    pub url: String,
}

/// The releases that fit a device, and how the device stands to them.
#[derive(Debug, Clone, PartialEq, Eq)]
pub struct GitHubInfo {
    /// The releases, the newest first.
    pub firmwares: Vec<FirmwareRelease>,
    /// Whether the device runs the newest release.
    pub is_updated: bool,
    /// Whether the newest release is a beta.
    pub is_beta: bool,
}

/// Whether the version that `version` spells meets the requirement that
/// `requirement` spells, by the rules of semantic versioning; nothing where
/// one of the two texts does not parse.
pub uninterp spec fn semver_admits(requirement: Seq<char>, version: Seq<char>) -> Option<bool>;

/// `semver::VersionReq::matches`, on the requirement that
/// `semver::VersionReq::parse` reads from `requirement` and the version that
/// `semver::Version::parse` reads from `version`. The result is that of the
/// call, and nothing where a text does not parse.
#[verifier::external_body]
fn requirement_admits(requirement: &str, version: &str) -> (admitted: Option<bool>)
    ensures
        admitted == semver_admits(requirement@, version@),
{
    match (semver::VersionReq::parse(requirement), semver::Version::parse(version)) {
        (Ok(r), Ok(v)) => Some(r.matches(&v)),
        _ => None,
    }
}

/// The text in which every match of the regular expression `pattern` in
/// `text`, from left to right and without overlap, is replaced as
/// `replacement` says; nothing where `pattern` is no regular expression.
pub uninterp spec fn regex_replaced(
    pattern: Seq<char>,
    text: Seq<char>,
    replacement: Seq<char>,
) -> Option<Seq<char>>;

/// `regex::Regex::replace_all`, on the expression that `regex::Regex::new`
/// compiles from `pattern`. The result is that of the call, and nothing
/// where the pattern does not compile.
#[verifier::external_body]
fn regex_replace_all(pattern: &str, text: &str, replacement: &str) -> (replaced: Option<String>)
    ensures
        match regex_replaced(pattern@, text@, replacement@) {
            Some(t) => replaced matches Some(s) && s@ == t,
            None => replaced is None,
        },
{
    match regex::Regex::new(pattern) {
        Ok(re) => Some(re.replace_all(text, replacement).into_owned()),
        Err(_) => None,
    }
}

/// The bytes that a text of hexadecimal digit pairs denotes: the text has an
/// even number of characters, all of them hexadecimal digits in either case.
pub open spec fn hex_text_bytes(text: Seq<char>) -> Option<Seq<u8>> {
    if text.len() % 2 == 0 && forall|i: int|
        0 <= i < text.len() / 2 ==> (#[trigger] hex_pair(text, 2 * i)) is Some {
        Some(Seq::new(text.len() / 2, |i: int| hex_pair(text, 2 * i).unwrap()))
    } else {
        None
    }
}

/// `hex::decode` gives the bytes that the digit pairs of the text denote,
/// and fails where the text has an odd number of bytes or holds a byte that
/// is no hexadecimal digit, which every character outside ASCII does.
#[verifier::external_body]
fn hex_decode(text: &str) -> (bytes: Option<Vec<u8>>)
    ensures
        match hex_text_bytes(text@) {
            Some(b) => bytes matches Some(v) && v@ == b,
            None => bytes is None,
        },
{
    hex::decode(text).ok()
}

/// A text without the characters `c` at its beginning.
pub open spec fn without_leading(s: Seq<char>, c: char) -> Seq<char>
    decreases s.len(),
{
    if s.len() > 0 && s[0] == c {
        without_leading(s.drop_first(), c)
    } else {
        s
    }
}

/// The version of a release as a semantic version is read from it: without
/// any `v` at its beginning, and up to its first hyphen.
pub open spec fn cleaned_version(s: Seq<char>) -> Seq<char> {
    let t = without_leading(s, 'v');
    t.take(first_at(t, '-') as int)
}

/// The version of a release, ready to be read as a semantic version.
pub fn clean_version(version_str: &str) -> (clean: String)
    ensures
        clean@ == cleaned_version(version_str@),
{
    let chars = chars_of(version_str);
    let mut start: usize = 0;
    assert(chars@.skip(0) == chars@);
    while start < chars.len() && chars[start] == 'v'
        invariant
            0 <= start <= chars.len(),
            without_leading(chars@, 'v') == without_leading(chars@.skip(start as int), 'v'),
        decreases chars.len() - start,
    {
        assert(chars@.skip(start as int).drop_first() == chars@.skip(start + 1));
        start += 1;
    }
    let end = find_char(&chars, start, '-');
    let part = copy_range(&chars, start, end);
    assert(part@ == chars@.skip(start as int).take(end - start));
    string_of(&part)
}

/// The name of a product family in the list of releases.
pub open spec fn product_name(product: Product) -> Seq<char> {
    match product {
        Product::Defy => "Defy"@,
        Product::Raise => "Raise"@,
    }
}

/// Whether a release is for a product, given what the requirement on
/// versions says of the version of the release.
///
/// A release for another product does not fit. A release for the Raise
/// fits. A release for the Defy fits where its version meets the
/// requirement; where that cannot be told, the version is invalid.
pub open spec fn fits_given(name: Seq<char>, product: Product, admitted: Option<bool>) -> Result<
    bool,
    FirmwareError,
> {
    if name != product_name(product) {
        Ok(false)
    } else if product != Product::Defy {
        Ok(true)
    } else {
        match admitted {
            Some(b) => Ok(b),
            None => Err(FirmwareError::InvalidVersion),
        }
    }
}

/// Whether a release is for a product.
pub open spec fn fits(release: FirmwareRelease, product: Product) -> Result<bool, FirmwareError> {
    fits_given(
        release.name@,
        product,
        semver_admits(FW_MAJOR_VERSION@, cleaned_version(release.version@)),
    )
}

/// Tells whether a release is for a product, given what the requirement on
/// versions says of the version of the release.
pub fn release_fits(release: &FirmwareRelease, product: Product, admitted: Option<bool>) -> (fit:
    Result<bool, FirmwareError>)
    ensures
        fit == fits_given(release.name@, product, admitted),
{
    if !same_text(release.name.as_str(), product.name()) {
        return Ok(false);
    }
    match product {
        Product::Defy => match admitted {
            Some(b) => Ok(b),
            None => Err(FirmwareError::InvalidVersion),
        },
        _ => Ok(true),
    }
}

/// The releases among `releases` that are for a product, in their order; or
/// the error of the first release of which it cannot be told.
pub open spec fn fitting(releases: Seq<FirmwareRelease>, product: Product) -> Result<
    Seq<FirmwareRelease>,
    FirmwareError,
>
    decreases releases.len(),
{
    if releases.len() == 0 {
        Ok(Seq::empty())
    } else {
        match fitting(releases.drop_last(), product) {
            Err(e) => Err(e),
            Ok(kept) => match fits(releases.last(), product) {
                Err(e) => Err(e),
                Ok(true) => Ok(kept.push(releases.last())),
                Ok(false) => Ok(kept),
            },
        }
    }
}

/// The place of a release among releases that stand newest first: behind
/// every release whose version does not stand before its own.
pub open spec fn place_of(sorted: Seq<FirmwareRelease>, release: FirmwareRelease, from: int) -> int
    decreases sorted.len() - from,
{
    if 0 <= from < sorted.len() && text_le(release.version@, sorted[from].version@) {
        place_of(sorted, release, from + 1)
    } else {
        from
    }
}

/// The releases with the newest first: in the falling order of their
/// versions as texts, and releases of one version in the order in which
/// they came.
pub open spec fn newest_first(releases: Seq<FirmwareRelease>) -> Seq<FirmwareRelease>
    decreases releases.len(),
{
    if releases.len() == 0 {
        Seq::empty()
    } else {
        let sorted = newest_first(releases.drop_last());
        sorted.insert(place_of(sorted, releases.last(), 0), releases.last())
    }
}

/// Whether no release stands before a release of a greater version.
pub open spec fn is_falling(releases: Seq<FirmwareRelease>) -> bool {
    forall|i: int, j: int|
        0 <= i < j < releases.len() ==> text_le(
            #[trigger] releases[j].version@,
            #[trigger] releases[i].version@,
        )
}

/// The place of a release is within the releases, everything before it is
/// no older, and what stands at it is older.
pub proof fn lemma_place_of(sorted: Seq<FirmwareRelease>, release: FirmwareRelease, from: int)
    requires
        0 <= from <= sorted.len(),
    ensures
        from <= place_of(sorted, release, from) <= sorted.len(),
        forall|k: int|
            from <= k < place_of(sorted, release, from) ==> text_le(
                release.version@,
                (#[trigger] sorted[k]).version@,
            ),
        place_of(sorted, release, from) < sorted.len() ==> !text_le(
            release.version@,
            sorted[place_of(sorted, release, from)].version@,
        ),
    decreases sorted.len() - from,
{
    if from < sorted.len() && text_le(release.version@, sorted[from].version@) {
        lemma_place_of(sorted, release, from + 1);
    }
}

/// Releases that are put newest first stand in the falling order of their
/// versions, and there are as many of them as before.
pub proof fn lemma_newest_first_is_falling(releases: Seq<FirmwareRelease>)
    ensures
        is_falling(newest_first(releases)),
        newest_first(releases).len() == releases.len(),
    decreases releases.len(),
{
    if releases.len() > 0 {
        let sorted = newest_first(releases.drop_last());
        let r = releases.last();
        lemma_newest_first_is_falling(releases.drop_last());
        lemma_place_of(sorted, r, 0);
        let p = place_of(sorted, r, 0);
        let out = sorted.insert(p, r);
        assert forall|i: int, j: int| 0 <= i < j < out.len() implies text_le(
            #[trigger] out[j].version@,
            #[trigger] out[i].version@,
        ) by {
            if j < p {
                assert(out[i] == sorted[i] && out[j] == sorted[j]);
            } else if j == p {
                assert(out[i] == sorted[i]);
            } else if i == p {
                // what stands behind the place is no newer than what stood at the place
                assert(out[j] == sorted[j - 1]);
                if j - 1 > p {
                    assert(text_le(sorted[j - 1].version@, sorted[p].version@));
                } else {
                    lemma_text_le_reflexive(sorted[p].version@);
                }
                lemma_text_le_total(r.version@, sorted[p].version@);
                lemma_text_le_transitive(sorted[j - 1].version@, sorted[p].version@, r.version@);
            } else if i < p {
                assert(out[i] == sorted[i] && out[j] == sorted[j - 1]);
            } else {
                assert(out[i] == sorted[i - 1] && out[j] == sorted[j - 1]);
            }
        }
    }
}

/// A sequence with one more element holds what it held, and that element.
pub proof fn lemma_insert_to_multiset(s: Seq<FirmwareRelease>, at: int, release: FirmwareRelease)
    requires
        0 <= at <= s.len(),
    ensures
        s.insert(at, release).to_multiset() == s.to_multiset().insert(release),
{
    broadcast use vstd::seq_lib::group_to_multiset_ensures;

    let t = s.insert(at, release);
    assert(t.remove(at) == s);
    assert(t[at] == release);
    vstd::seq_lib::to_multiset_remove(t, at);
    assert(t.contains(release));
    assert(t.to_multiset().count(release) > 0);
    assert(t.to_multiset() =~= s.to_multiset().insert(release));
}

/// Releases that are put newest first are the same releases, each as often
/// as before.
pub proof fn lemma_newest_first_is_permutation(releases: Seq<FirmwareRelease>)
    ensures
        newest_first(releases).to_multiset() == releases.to_multiset(),
    decreases releases.len(),
{
    broadcast use vstd::seq_lib::group_to_multiset_ensures;

    if releases.len() == 0 {
        assert(newest_first(releases) == releases);
    } else {
        let head = releases.drop_last();
        let last = releases.last();
        let sorted = newest_first(head);
        lemma_newest_first_is_permutation(head);
        lemma_newest_first_is_falling(head);
        lemma_place_of(sorted, last, 0);
        lemma_insert_to_multiset(sorted, place_of(sorted, last, 0), last);
        assert(head.push(last) == releases);
        vstd::seq_lib::to_multiset_build(head, last);
    }
}

/// Tells whether a version does not stand behind that of a release.
fn is_no_newer(version: &Vec<char>, other: &FirmwareRelease) -> (yes: bool)
    ensures
        yes == text_le(version@, other.version@),
{
    let theirs = chars_of(other.version.as_str());
    text_before_or_same(version, &theirs)
}

/// Puts a release in its place among releases that stand newest first.
fn insert_release(sorted: &mut Vec<FirmwareRelease>, release: FirmwareRelease)
    ensures
        final(sorted)@ == old(sorted)@.insert(place_of(old(sorted)@, release, 0), release),
{
    let version = chars_of(release.version.as_str());
    let mut at: usize = 0;
    while at < sorted.len() && is_no_newer(&version, &sorted[at])
        invariant
            0 <= at <= sorted.len(),
            version@ == release.version@,
            place_of(sorted@, release, 0) == place_of(sorted@, release, at as int),
        decreases sorted.len() - at,
    {
        at += 1;
    }
    sorted.insert(at, release);
}

/// Whether betas are to be listed for a device: not while its bootloader
/// runs, and otherwise as the operator chose.
pub fn wants_beta(context: &Ctx) -> (wanted: bool)
    ensures
        wanted == (!context.device.bootloader && context.allow_beta),
{
    !context.device.bootloader && context.allow_beta
}

/// The releases that fit the device of `context` among `fw_releases`, the
/// newest first, and how the device stands to the newest.
///
/// A device whose bootloader runs is neither up to date nor on a beta.
/// Any other device is up to date where it runs the version of the newest
/// release, and is on a beta where that release is one.
pub fn github_read(context: &Ctx, fw_releases: Vec<FirmwareRelease>) -> (info: Result<
    GitHubInfo,
    FirmwareError,
>)
    ensures
        match fitting(fw_releases@, context.device.info.product) {
            Err(e) => info == Err::<GitHubInfo, FirmwareError>(e),
            Ok(kept) => if kept.len() == 0 {
                info == Err::<GitHubInfo, FirmwareError>(FirmwareError::NoReleases)
            } else {
                &&& info matches Ok(found)
                &&& found.firmwares@ == newest_first(kept)
                &&& found.is_updated == (!context.device.bootloader && context.collected.version@
                    == newest_first(kept)[0].version@)
                &&& found.is_beta == (!context.device.bootloader && newest_first(kept)[0].beta)
            },
        },
{
    let product = context.device.info.product;
    let ghost all = fw_releases@;
    let mut rest = fw_releases;
    let mut kept: Vec<FirmwareRelease> = Vec::new();
    let ghost mut chosen: Seq<FirmwareRelease> = Seq::empty();
    let ghost mut done: int = 0;
    assert(all.take(0) == Seq::<FirmwareRelease>::empty());
    while rest.len() > 0
        invariant
            0 <= done <= all.len(),
            all == fw_releases@,
            product == context.device.info.product,
            rest@ == all.skip(done),
            fitting(all.take(done), product) == Ok::<Seq<FirmwareRelease>, FirmwareError>(chosen),
            kept@ == newest_first(chosen),
        decreases rest.len(),
    {
        let release = rest.remove(0);
        proof {
            assert(release == all[done]);
            assert(all.take(done + 1).drop_last() == all.take(done));
            assert(all.take(done + 1).last() == release);
            assert(all.skip(done).remove(0) == all.skip(done + 1));
        }
        let named = same_text(release.name.as_str(), product.name());
        let admitted = match product {
            Product::Defy => if named {
                let version = clean_version(release.version.as_str());
                requirement_admits(FW_MAJOR_VERSION, version.as_str())
            } else {
                None
            },
            _ => None,
        };
        assert(fits_given(release.name@, product, admitted) == fits(release, product));
        match release_fits(&release, product, admitted) {
            Err(e) => {
                proof {
                    lemma_fitting_fails(all, product, done + 1);
                }
                return Err(e);
            },
            Ok(true) => {
                proof {
                    assert(chosen.push(release).drop_last() == chosen);
                    chosen = chosen.push(release);
                }
                insert_release(&mut kept, release);
            },
            Ok(false) => {},
        }
        proof {
            done = done + 1;
        }
    }
    assert(all.take(done) == all);
    if kept.len() == 0 {
        proof {
            lemma_newest_first_is_falling(chosen);
        }
        return Err(FirmwareError::NoReleases);
    }
    proof {
        lemma_newest_first_is_falling(chosen);
    }
    if context.device.bootloader {
        return Ok(GitHubInfo { firmwares: kept, is_updated: false, is_beta: false });
    }
    let is_updated = same_text(context.collected.version.as_str(), kept[0].version.as_str());
    let is_beta = kept[0].beta;
    Ok(GitHubInfo { firmwares: kept, is_updated, is_beta })
}

/// Where it cannot be told of a release among the first whether it fits, it
/// cannot be told of the releases as a whole, and the error is the same.
pub proof fn lemma_fitting_fails(releases: Seq<FirmwareRelease>, product: Product, k: int)
    requires
        0 <= k <= releases.len(),
        fitting(releases.take(k), product) is Err,
    ensures
        fitting(releases, product) == fitting(releases.take(k), product),
    decreases releases.len(),
{
    if k == releases.len() {
        assert(releases.take(k) == releases);
    } else {
        assert(releases.drop_last().take(k) == releases.take(k));
        lemma_fitting_fails(releases.drop_last(), product, k);
    }
}

/// What a file of a release holds.
pub struct AssetView {
    pub name: Seq<char>,
    pub url: Seq<char>,
}

impl View for FirmwareAsset {
    type V = AssetView;

    open spec fn view(&self) -> AssetView {
        AssetView { name: self.name@, url: self.url@ }
    }
}

impl View for GitHubAsset {
    type V = AssetView;

    open spec fn view(&self) -> AssetView {
        AssetView { name: self.name@, url: self.url@ }
    }
}

/// What a release holds.
pub struct ReleaseView {
    pub name: Seq<char>,
    pub version: Seq<char>,
    pub body: Seq<char>,
    pub assets: Seq<AssetView>,
    pub beta: bool,
}

impl View for FirmwareRelease {
    type V = ReleaseView;

    open spec fn view(&self) -> ReleaseView {
        ReleaseView {
            name: self.name@,
            version: self.version@,
            body: self.body@,
            assets: Seq::new(self.assets@.len(), |i: int| self.assets@[i]@),
            beta: self.beta,
        }
    }
}

/// What the releases of a vector hold.
pub open spec fn release_views(v: Seq<FirmwareRelease>) -> Seq<ReleaseView> {
    Seq::new(v.len(), |i: int| v[i]@)
}

/// The release that an entry of the server's list stands for, if it stands
/// for one that is wanted.
///
/// The name of the entry holds the product family, a space and the version;
/// what follows a second space is not looked at. An entry without a space
/// stands for no release. The release is a beta where the server marks the
/// entry as a prerelease or its version holds `-beta`; a beta is wanted only
/// where betas are allowed.
pub open spec fn listed_release(entry: GitHubRelease, allow_beta: bool) -> Option<ReleaseView> {
    let title = entry.name@;
    let space = first_at(title, ' ') as int;
    if space >= title.len() {
        None
    } else {
        let rest = title.skip(space + 1);
        let version = rest.take(first_at(rest, ' ') as int);
        let beta = entry.beta || has_part(version, "-beta"@);
        if beta && !allow_beta {
            None
        } else {
            Some(
                ReleaseView {
                    name: title.take(space),
                    version,
                    body: entry.body@,
                    assets: Seq::new(entry.assets@.len(), |i: int| entry.assets@[i]@),
                    beta,
                },
            )
        }
    }
}

/// The releases that the entries of the server's list stand for, in the
/// order of the list.
pub open spec fn listed_releases(entries: Seq<GitHubRelease>, allow_beta: bool) -> Seq<ReleaseView>
    decreases entries.len(),
{
    if entries.len() == 0 {
        Seq::empty()
    } else {
        match listed_release(entries.last(), allow_beta) {
            Some(release) => listed_releases(entries.drop_last(), allow_beta).push(release),
            None => listed_releases(entries.drop_last(), allow_beta),
        }
    }
}

/// The release that an entry of the server's list stands for, if it stands
/// for one that is wanted.
pub fn release_of_entry(entry: &GitHubRelease, allow_beta: bool) -> (release: Option<
    FirmwareRelease,
>)
    ensures
        match listed_release(*entry, allow_beta) {
            Some(view) => release matches Some(r) && r@ == view,
            None => release is None,
        },
{
    let title = chars_of(entry.name.as_str());
    let space = find_char(&title, 0, ' ');
    assert(title@.skip(0) == title@);
    if space >= title.len() {
        return None;
    }
    let end = find_char(&title, space + 1, ' ');
    let name = copy_range(&title, 0, space);
    let version_chars = copy_range(&title, space + 1, end);
    assert(name@ == title@.take(space as int));
    assert(version_chars@ == title@.skip(space + 1).take(end - space - 1));
    let version = string_of(&version_chars);
    let beta = entry.beta || contains_text(version.as_str(), "-beta");
    if beta && !allow_beta {
        return None;
    }
    let mut assets: Vec<FirmwareAsset> = Vec::new();
    let mut i: usize = 0;
    while i < entry.assets.len()
        invariant
            0 <= i <= entry.assets.len(),
            assets.len() == i,
            forall|j: int| 0 <= j < i ==> (#[trigger] assets[j])@ == entry.assets[j]@,
        decreases entry.assets.len() - i,
    {
        let asset = &entry.assets[i];
        assets.push(FirmwareAsset { name: asset.name.clone(), url: asset.url.clone() });
        i += 1;
    }
    let release = FirmwareRelease {
        name: string_of(&name),
        version,
        body: entry.body.clone(),
        assets,
        beta,
    };
    assert(release@.assets == listed_release(*entry, allow_beta).unwrap().assets);
    Some(release)
}

/// The releases that the server lists, as far as they are wanted.
pub fn load_available_firmware_versions(entries: &Vec<GitHubRelease>, allow_beta: bool) -> (releases:
    Vec<FirmwareRelease>)
    ensures
        release_views(releases@) == listed_releases(entries@, allow_beta),
{
    let mut releases: Vec<FirmwareRelease> = Vec::new();
    let mut i: usize = 0;
    assert(entries@.take(0) == Seq::<GitHubRelease>::empty());
    while i < entries.len()
        invariant
            0 <= i <= entries.len(),
            release_views(releases@) == listed_releases(entries@.take(i as int), allow_beta),
        decreases entries.len() - i,
    {
        proof {
            assert(entries@.take(i + 1).drop_last() == entries@.take(i as int));
            assert(entries@.take(i + 1).last() == entries@[i as int]);
        }
        match release_of_entry(&entries[i], allow_beta) {
            Some(release) => {
                let ghost before = release_views(releases@);
                let ghost view = release@;
                releases.push(release);
                assert(release_views(releases@) == before.push(view));
            },
            None => {},
        }
        i += 1;
    }
    assert(entries@.take(entries.len() as int) == entries@);
    releases
}

/// The releases among `releases` that are named for a product, in their
/// order.
pub open spec fn named_for(releases: Seq<FirmwareRelease>, product: Product) -> Seq<
    FirmwareRelease,
>
    decreases releases.len(),
{
    if releases.len() == 0 {
        Seq::empty()
    } else if releases.last().name@ == product_name(product) {
        named_for(releases.drop_last(), product).push(releases.last())
    } else {
        named_for(releases.drop_last(), product)
    }
}

/// The releases for the product of a device that an operator can choose
/// from, in the order in which they were listed.
pub fn releases_for(releases: Vec<FirmwareRelease>, hardware: &Hardware) -> (options: Vec<
    FirmwareRelease,
>)
    ensures
        options@ == named_for(releases@, hardware.info.product),
{
    let product = hardware.info.product;
    let ghost all = releases@;
    let ghost mut done: int = 0;
    let mut rest = releases;
    let mut options: Vec<FirmwareRelease> = Vec::new();
    assert(all.take(0) == Seq::<FirmwareRelease>::empty());
    while rest.len() > 0
        invariant
            0 <= done <= all.len(),
            rest@ == all.skip(done),
            options@ == named_for(all.take(done), product),
        decreases rest.len(),
    {
        let release = rest.remove(0);
        proof {
            assert(release == all[done]);
            assert(all.take(done + 1).drop_last() == all.take(done));
            assert(all.take(done + 1).last() == release);
            assert(all.skip(done).remove(0) == all.skip(done + 1));
            done = done + 1;
        }
        if same_text(release.name.as_str(), product.name()) {
            options.push(release);
        }
    }
    assert(all.take(done) == all);
    options
}

/// The first file with the name given among the files of a release.
pub open spec fn find_asset(assets: Seq<FirmwareAsset>, name: Seq<char>) -> Option<AssetView>
    decreases assets.len(),
{
    if assets.len() == 0 {
        None
    } else if assets[0].name@ == name {
        Some(assets[0]@)
    } else {
        find_asset(assets.drop_first(), name)
    }
}

/// The first file with the name given among the files of a release.
fn asset_named(assets: &Vec<FirmwareAsset>, name: &str) -> (found: Option<FirmwareAsset>)
    ensures
        match find_asset(assets@, name@) {
            Some(view) => found matches Some(a) && a@ == view,
            None => found is None,
        },
{
    let mut i: usize = 0;
    assert(assets@.skip(0) == assets@);
    while i < assets.len()
        invariant
            0 <= i <= assets.len(),
            find_asset(assets@, name@) == find_asset(assets@.skip(i as int), name@),
        decreases assets.len() - i,
    {
        let asset = &assets[i];
        assert(assets@.skip(i as int)[0] == *asset);
        if same_text(asset.name.as_str(), name) {
            return Some(FirmwareAsset { name: asset.name.clone(), url: asset.url.clone() });
        }
        assert(assets@.skip(i as int).drop_first() == assets@.skip(i + 1));
        i += 1;
    }
    None
}

/// The files of a release for a Defy, whose primary image has the name
/// given: that image and the image of the side controllers.
pub open spec fn defy_files(assets: Seq<FirmwareAsset>, name: Seq<char>) -> Result<
    (AssetView, Option<AssetView>),
    FirmwareError,
> {
    match find_asset(assets, name) {
        None => Err(FirmwareError::FirmwareNotFound),
        Some(firmware) => match find_asset(assets, "keyscanner.bin"@) {
            None => Err(FirmwareError::SidesNotFound),
            Some(sides) => Ok((firmware, Some(sides))),
        },
    }
}

/// The files of a release for a Raise: the image `firmware.hex`.
pub open spec fn raise_files(assets: Seq<FirmwareAsset>) -> Result<
    (AssetView, Option<AssetView>),
    FirmwareError,
> {
    match find_asset(assets, "firmware.hex"@) {
        None => Err(FirmwareError::FirmwareNotFound),
        Some(firmware) => Ok((firmware, None)),
    }
}

/// The files of a release that are to be fetched for a device.
pub open spec fn files_for(hardware: Hardware, assets: Seq<FirmwareAsset>) -> Result<
    (AssetView, Option<AssetView>),
    FirmwareError,
> {
    match hardware.info.product {
        Product::Raise => raise_files(assets),
        Product::Defy => match hardware.info.keyboard_type {
            KeyboardType::Wireless => defy_files(assets, "Wireless_neuron.hex"@),
            KeyboardType::Wired => defy_files(assets, "Wired_neuron.uf2"@),
            _ => Err(FirmwareError::InvalidDeviceType),
        },
    }
}

/// What the files to be fetched hold.
pub open spec fn files_view(files: FirmwareFiles) -> (AssetView, Option<AssetView>) {
    (
        files.firmware@,
        match files.sides {
            Some(s) => Some(s@),
            None => None,
        },
    )
}

/// The files of a release for a Raise.
pub fn download_firmware_raise(firmware_release: &FirmwareRelease) -> (files: Result<
    FirmwareFiles,
    FirmwareError,
>)
    ensures
        match raise_files(firmware_release.assets@) {
            Ok(view) => files matches Ok(f) && files_view(f) == view,
            Err(e) => files == Err::<FirmwareFiles, FirmwareError>(e),
        },
{
    match asset_named(&firmware_release.assets, "firmware.hex") {
        None => Err(FirmwareError::FirmwareNotFound),
        Some(firmware) => Ok(FirmwareFiles { firmware, sides: None }),
    }
}

/// The files of a release for a Defy whose primary image has the name
/// given.
pub fn download_firmware_defy(firmware_release: &FirmwareRelease, firmware_file_name: &str) -> (files:
    Result<FirmwareFiles, FirmwareError>)
    ensures
        match defy_files(firmware_release.assets@, firmware_file_name@) {
            Ok(view) => files matches Ok(f) && files_view(f) == view,
            Err(e) => files == Err::<FirmwareFiles, FirmwareError>(e),
        },
{
    match asset_named(&firmware_release.assets, firmware_file_name) {
        None => Err(FirmwareError::FirmwareNotFound),
        Some(firmware) => match asset_named(&firmware_release.assets, "keyscanner.bin") {
            None => Err(FirmwareError::SidesNotFound),
            Some(sides) => Ok(FirmwareFiles { firmware, sides: Some(sides) }),
        },
    }
}

/// The files of a release that are to be fetched for a device.
pub fn download_firmware(hardware: &Hardware, firmware_release: &FirmwareRelease) -> (files: Result<
    FirmwareFiles,
    FirmwareError,
>)
    ensures
        match files_for(*hardware, firmware_release.assets@) {
            Ok(view) => files matches Ok(f) && files_view(f) == view,
            Err(e) => files == Err::<FirmwareFiles, FirmwareError>(e),
        },
{
    match hardware.info.product {
        Product::Raise => download_firmware_raise(firmware_release),
        Product::Defy => match hardware.info.keyboard_type {
            KeyboardType::Wireless => download_firmware_defy(
                firmware_release,
                "Wireless_neuron.hex",
            ),
            KeyboardType::Wired => download_firmware_defy(firmware_release, "Wired_neuron.uf2"),
            _ => Err(FirmwareError::InvalidDeviceType),
        },
    }
}

/// The digit pairs of an image that is written on one line: what follows
/// its first colon, without any further colon; nothing where it holds no
/// colon.
pub open spec fn after_colons(line: Seq<char>) -> Seq<char> {
    let first = first_at(line, ':') as int;
    if first >= line.len() {
        Seq::empty()
    } else {
        without_char(line.skip(first + 1), ':')
    }
}

/// The bytes of an image that is written on one line, its records set
/// apart by colons: the digit pairs after its first colon, read as bytes.
pub fn hex_payload(single_line: &str) -> (bytes: Option<Vec<u8>>)
    ensures
        match hex_text_bytes(after_colons(single_line@)) {
            Some(b) => bytes matches Some(v) && v@ == b,
            None => bytes is None,
        },
{
    let chars = chars_of(single_line);
    let first = find_char(&chars, 0, ':');
    assert(chars@.skip(0) == chars@);
    let digits = if first >= chars.len() {
        Vec::new()
    } else {
        remove_char(&chars, first + 1, ':')
    };
    let text = string_of(&digits);
    hex_decode(text.as_str())
}

/// Whether a file of a release is fetched as text: an Intel-HEX file is,
/// which is one whose name ends in `.hex`.
pub fn expects_text(firmware_file_name: &str) -> (yes: bool)
    ensures
        yes == ends_with(firmware_file_name@, ".hex"@),
{
    has_suffix(firmware_file_name, ".hex")
}

/// The image that a file of a release holds.
///
/// Bytes are the image as they are. Of a text, the line breaks are taken
/// out, and the digit pairs after the first colon are the image; the text
/// itself is kept beside them.
pub fn obtain_firmware_file(firmware_file_name: &str, content: Download) -> (node: Result<
    FirmwareNode,
    FirmwareError,
>)
    ensures
        match content {
            Download::Bytes(bytes) => {
                &&& node matches Ok(n)
                &&& n.name@ == firmware_file_name@
                &&& n.bytes@ == bytes@
                &&& n.hex_raw is None
            },
            Download::Text(text) => match regex_replaced("[\r\n]+"@, text@, ""@) {
                None => node == Err::<FirmwareNode, FirmwareError>(FirmwareError::InvalidHex),
                Some(line) => match hex_text_bytes(after_colons(line)) {
                    None => node == Err::<FirmwareNode, FirmwareError>(FirmwareError::InvalidHex),
                    Some(b) => {
                        &&& node matches Ok(n)
                        &&& n.name@ == firmware_file_name@
                        &&& n.bytes@ == b
                        &&& n.hex_raw matches Some(raw)
                        &&& raw@ == text@
                    },
                },
            },
        },
{
    match content {
        Download::Bytes(bytes) => Ok(
            FirmwareNode { name: firmware_file_name.to_owned(), bytes, hex_raw: None },
        ),
        Download::Text(text) => {
            let single_line = match regex_replace_all("[\r\n]+", text.as_str(), "") {
                Some(line) => line,
                None => {
                    return Err(FirmwareError::InvalidHex);
                },
            };
            match hex_payload(single_line.as_str()) {
                None => Err(FirmwareError::InvalidHex),
                Some(bytes) => Ok(
                    FirmwareNode {
                        name: firmware_file_name.to_owned(),
                        bytes,
                        hex_raw: Some(text),
                    },
                ),
            }
        },
    }
}

} // verus!
