//! The options a restore starts with: the `RestoreOptions` dictionary sent
//! with `StartRestore`, and the data and message types the host supports.

use vstd::prelude::*;

use crate::plist::{inserted, PlistDict, PlistValue, PlistView};
use vstd::string::StringExecFns;

verus! {

/// The dictionary made by inserting pairs in order (a repeated key keeps
/// its first place and takes the later value).
pub open spec fn dict_from(pairs: Seq<(Seq<char>, PlistView)>) -> Seq<(Seq<char>, PlistView)>
    decreases pairs.len(),
{
    if pairs.len() == 0 {
        Seq::empty()
    } else {
        inserted(dict_from(pairs.drop_last()), pairs.last().0, pairs.last().1)
    }
}

/// The views of pairs of a literal key and a value.
pub open spec fn pair_views(pairs: Seq<(&str, PlistValue)>) -> Seq<(Seq<char>, PlistView)> {
    pairs.map_values(|p: (&str, PlistValue)| (p.0@, p.1@))
}

/// The dictionary made by inserting pairs in order.
pub(crate) fn dict_from_pairs(pairs: Vec<(&str, PlistValue)>) -> (r: PlistDict)
    ensures
        r@ == dict_from(pair_views(pairs@)),
{
    let ghost pv = pair_views(pairs@);
    let mut d = PlistDict::new();
    let mut pairs = pairs;
    let ghost all = pairs@;
    let n = pairs.len();
    let mut i: usize = 0;
    while i < n
        invariant
            n == all.len(),
            i <= n,
            pv == pair_views(all),
            pairs@ =~= all.skip(i as int),
            d@ == dict_from(pv.take(i as int)),
        decreases n - i,
    {
        let p = pairs.remove(0);
        assert(p == all[i as int]);
        assert(pairs@ =~= all.skip(i + 1));
        assert(pv.take(i + 1).drop_last() =~= pv.take(i as int));
        assert(pv.take(i + 1).last() == (all[i as int].0@, all[i as int].1@));
        d.insert(String::from_str(p.0), p.1);
        i = i + 1;
    }
    assert(pv.take(n as int) =~= pv);
    d
}

/// The dictionary of a table of booleans.
pub open spec fn bool_table(pairs: Seq<(Seq<char>, bool)>) -> Seq<(Seq<char>, PlistView)> {
    dict_from(pairs.map_values(|p: (Seq<char>, bool)| (p.0, PlistView::Boolean(p.1))))
}

/// The dictionary of a table of booleans.
fn bool_table_dict(pairs: &[(&str, bool)]) -> (r: PlistDict)
    ensures
        r@ == bool_table(pairs@.map_values(|p: (&str, bool)| (p.0@, p.1))),
{
    let mut v: Vec<(&str, PlistValue)> = Vec::new();
    let mut i: usize = 0;
    while i < pairs.len()
        invariant
            i <= pairs@.len(),
            pair_views(v@) == pairs@.take(i as int).map_values(
                |p: (&str, bool)| (p.0@, PlistView::Boolean(p.1)),
            ),
        decreases pairs@.len() - i,
    {
        let (k, b) = pairs[i];
        let ghost before = v@;
        v.push((k, PlistValue::Boolean(b)));
        assert(pair_views(v@) =~= pair_views(before).push((k@, PlistView::Boolean(b))));
        assert(pairs@.take(i + 1) =~= pairs@.take(i as int).push(pairs@[i as int]));
        assert(pairs@.take(i + 1).map_values(|p: (&str, bool)| (p.0@, PlistView::Boolean(p.1)))
            =~= pairs@.take(i as int).map_values(|p: (&str, bool)| (p.0@, PlistView::Boolean(p.1))).push(
            (k@, PlistView::Boolean(b)),
        ));
        i = i + 1;
    }
    assert(pairs@.take(pairs@.len() as int) =~= pairs@);
    assert(pair_views(v@) =~= pairs@.map_values(|p: (&str, bool)| (p.0@, p.1)).map_values(
        |p: (Seq<char>, bool)| (p.0, PlistView::Boolean(p.1)),
    ));
    dict_from_pairs(v)
}

/// The data types the host supports, and whether each may be sent
/// asynchronously.
pub open spec fn supported_data_type_pairs() -> Seq<(Seq<char>, bool)> {
    seq![
        ("BasebandBootData"@, false),
        ("BasebandData"@, false),
        ("BasebandStackData"@, false),
        ("BasebandUpdaterOutputData"@, false),
        ("BootabilityBundle"@, false),
        ("BuildIdentityDict"@, false),
        ("BuildIdentityDictV2"@, false),
        ("DataType"@, false),
        ("DiagData"@, false),
        ("EANData"@, false),
        ("FDRMemoryCommit"@, false),
        ("FDRTrustData"@, false),
        ("FUDData"@, false),
        ("FileData"@, false),
        ("FileDataDone"@, false),
        ("FirmwareUpdaterData"@, false),
        ("GrapeFWData"@, false),
        ("HPMFWData"@, false),
        ("HostSystemTime"@, true),
        ("KernelCache"@, false),
        ("NORData"@, false),
        ("NitrogenFWData"@, true),
        ("OpalFWData"@, false),
        ("OverlayRootDataCount"@, false),
        ("OverlayRootDataForKey"@, true),
        ("PeppyFWData"@, true),
        ("PersonalizedBootObjectV3"@, false),
        ("PersonalizedData"@, true),
        ("ProvisioningData"@, false),
        ("RamdiskFWData"@, true),
        ("RecoveryOSASRImage"@, true),
        ("RecoveryOSAppleLogo"@, true),
        ("RecoveryOSDeviceTree"@, true),
        ("RecoveryOSFileAssetImage"@, true),
        ("RecoveryOSIBEC"@, true),
        ("RecoveryOSIBootFWFilesImages"@, true),
        ("RecoveryOSImage"@, true),
        ("RecoveryOSKernelCache"@, true),
        ("RecoveryOSLocalPolicy"@, true),
        ("RecoveryOSOverlayRootDataCount"@, false),
        ("RecoveryOSRootTicketData"@, true),
        ("RecoveryOSStaticTrustCache"@, true),
        ("RecoveryOSVersionData"@, true),
        ("RootData"@, false),
        ("RootTicket"@, false),
        ("S3EOverride"@, false),
        ("SourceBootObjectV3"@, false),
        ("SourceBootObjectV4"@, false),
        ("SsoServiceTicket"@, false),
        ("StockholmPostflight"@, false),
        ("SystemImageCanonicalMetadata"@, false),
        ("SystemImageData"@, false),
        ("SystemImageRootHash"@, false),
        ("USBCFWData"@, false),
        ("USBCOverride"@, false),
        ("FirmwareUpdaterPreflight"@, true),
        ("ReceiptManifest"@, true),
        ("FirmwareUpdaterDataV2"@, false),
        ("RestoreLocalPolicy"@, true),
        ("AuthInstallCACert"@, true),
        ("OverlayRootDataForKeyIndex"@, true),
        ("FirmwareUpdaterDataV3"@, true),
        ("MessageUseStreamedImageFile"@, true),
        ("UpdateVolumeOverlayRootDataCount"@, true),
        ("URLAsset"@, true)
    ]
}

/// The message types the host supports, and whether each may be sent
/// asynchronously.
pub open spec fn supported_message_type_pairs() -> Seq<(Seq<char>, bool)> {
    seq![
        ("BBUpdateStatusMsg"@, false),
        ("CheckpointMsg"@, true),
        ("CrashLog"@, true),
        ("DataRequestMsg"@, false),
        ("FDRSubmit"@, true),
        ("MsgType"@, false),
        ("PreviousRestoreLogMsg"@, false),
        ("ProgressMsg"@, false),
        ("ProvisioningAck"@, false),
        ("ProvisioningInfo"@, false),
        ("ProvisioningStatusMsg"@, false),
        ("ReceivedFinalStatusMsg"@, false),
        ("RestoredCrash"@, true),
        ("StatusMsg"@, false),
        ("AsyncDataRequestMsg"@, true),
        ("AsyncWait"@, true),
        ("RestoreAttestation"@, true)
    ]
}

/// The data types that may come asynchronously.
pub open spec fn supported_async_data_type_pairs() -> Seq<(Seq<char>, bool)> {
    seq![
        ("BasebandData"@, false),
        ("RecoveryOSASRImage"@, false),
        ("StreamedImageDecryptionKey"@, false),
        ("SystemImageData"@, false),
        ("URLAsset"@, true),
    ]
}

/// The default system partition padding, by capacity.
pub open spec fn partition_padding_pairs() -> Seq<(Seq<char>, PlistView)> {
    seq![
        ("8"@, PlistView::Integer(80)),
        ("16"@, PlistView::Integer(160)),
        ("32"@, PlistView::Integer(320)),
        ("64"@, PlistView::Integer(640)),
        ("128"@, PlistView::Integer(1280)),
        ("256"@, PlistView::Integer(1280)),
        ("512"@, PlistView::Integer(1280)),
        ("768"@, PlistView::Integer(1280)),
        ("1024"@, PlistView::Integer(1280)),
    ]
}

/// The supported data types table.
fn supported_data_types() -> (r: PlistDict)
    ensures
        r@ == bool_table(supported_data_type_pairs()),
{
    let t = vec![
        ("BasebandBootData", false),
        ("BasebandData", false),
        ("BasebandStackData", false),
        ("BasebandUpdaterOutputData", false),
        ("BootabilityBundle", false),
        ("BuildIdentityDict", false),
        ("BuildIdentityDictV2", false),
        ("DataType", false),
        ("DiagData", false),
        ("EANData", false),
        ("FDRMemoryCommit", false),
        ("FDRTrustData", false),
        ("FUDData", false),
        ("FileData", false),
        ("FileDataDone", false),
        ("FirmwareUpdaterData", false),
        ("GrapeFWData", false),
        ("HPMFWData", false),
        ("HostSystemTime", true),
        ("KernelCache", false),
        ("NORData", false),
        ("NitrogenFWData", true),
        ("OpalFWData", false),
        ("OverlayRootDataCount", false),
        ("OverlayRootDataForKey", true),
        ("PeppyFWData", true),
        ("PersonalizedBootObjectV3", false),
        ("PersonalizedData", true),
        ("ProvisioningData", false),
        ("RamdiskFWData", true),
        ("RecoveryOSASRImage", true),
        ("RecoveryOSAppleLogo", true),
        ("RecoveryOSDeviceTree", true),
        ("RecoveryOSFileAssetImage", true),
        ("RecoveryOSIBEC", true),
        ("RecoveryOSIBootFWFilesImages", true),
        ("RecoveryOSImage", true),
        ("RecoveryOSKernelCache", true),
        ("RecoveryOSLocalPolicy", true),
        ("RecoveryOSOverlayRootDataCount", false),
        ("RecoveryOSRootTicketData", true),
        ("RecoveryOSStaticTrustCache", true),
        ("RecoveryOSVersionData", true),
        ("RootData", false),
        ("RootTicket", false),
        ("S3EOverride", false),
        ("SourceBootObjectV3", false),
        ("SourceBootObjectV4", false),
        ("SsoServiceTicket", false),
        ("StockholmPostflight", false),
        ("SystemImageCanonicalMetadata", false),
        ("SystemImageData", false),
        ("SystemImageRootHash", false),
        ("USBCFWData", false),
        ("USBCOverride", false),
        ("FirmwareUpdaterPreflight", true),
        ("ReceiptManifest", true),
        ("FirmwareUpdaterDataV2", false),
        ("RestoreLocalPolicy", true),
        ("AuthInstallCACert", true),
        ("OverlayRootDataForKeyIndex", true),
        ("FirmwareUpdaterDataV3", true),
        ("MessageUseStreamedImageFile", true),
        ("UpdateVolumeOverlayRootDataCount", true),
        ("URLAsset", true)
    ];
    assert(t@.map_values(|p: (&str, bool)| (p.0@, p.1)) =~= supported_data_type_pairs());
    bool_table_dict(t.as_slice())
}

/// The supported message types table.
fn supported_message_types() -> (r: PlistDict)
    ensures
        r@ == bool_table(supported_message_type_pairs()),
{
    let t = vec![
        ("BBUpdateStatusMsg", false),
        ("CheckpointMsg", true),
        ("CrashLog", true),
        ("DataRequestMsg", false),
        ("FDRSubmit", true),
        ("MsgType", false),
        ("PreviousRestoreLogMsg", false),
        ("ProgressMsg", false),
        ("ProvisioningAck", false),
        ("ProvisioningInfo", false),
        ("ProvisioningStatusMsg", false),
        ("ReceivedFinalStatusMsg", false),
        ("RestoredCrash", true),
        ("StatusMsg", false),
        ("AsyncDataRequestMsg", true),
        ("AsyncWait", true),
        ("RestoreAttestation", true)
    ];
    assert(t@.map_values(|p: (&str, bool)| (p.0@, p.1)) =~= supported_message_type_pairs());
    bool_table_dict(t.as_slice())
}

/// The asynchronous data types table.
fn supported_async_data_types() -> (r: PlistDict)
    ensures
        r@ == bool_table(supported_async_data_type_pairs()),
{
    let t = vec![
        ("BasebandData", false),
        ("RecoveryOSASRImage", false),
        ("StreamedImageDecryptionKey", false),
        ("SystemImageData", false),
        ("URLAsset", true),
    ];
    assert(t@.map_values(|p: (&str, bool)| (p.0@, p.1)) =~= supported_async_data_type_pairs());
    bool_table_dict(t.as_slice())
}

/// The default system partition padding table.
fn default_system_partition_padding() -> (r: PlistDict)
    ensures
        r@ == dict_from(partition_padding_pairs()),
{
    let t: Vec<(&str, PlistValue)> = vec![
        ("8", PlistValue::Integer(80)),
        ("16", PlistValue::Integer(160)),
        ("32", PlistValue::Integer(320)),
        ("64", PlistValue::Integer(640)),
        ("128", PlistValue::Integer(1280)),
        ("256", PlistValue::Integer(1280)),
        ("512", PlistValue::Integer(1280)),
        ("768", PlistValue::Integer(1280)),
        ("1024", PlistValue::Integer(1280)),
    ];
    assert(pair_views(t@) =~= partition_padding_pairs());
    dict_from_pairs(t)
}

/// The options of a restore.
#[derive(Debug)]
pub struct RestoreOptions {
    /// Delay (seconds) before the device auto-boots after restore.
    pub auto_boot_delay: i64,
    /// Whether NOR should be flashed.
    pub flash_nor: bool,
    /// Whether the baseband should be updated during restore.
    pub update_baseband: bool,
    /// Whether personalization happens during preflight.
    pub personalized_during_preflight: bool,
    /// Boot-args set on the device before restore.
    pub restore_boot_args: Option<String>,
    /// The baseband nonce (from firmware preflight info).
    pub baseband_nonce: Option<Vec<u8>>,
    /// The baseband updater's state.
    pub bb_updater_state: Option<PlistDict>,
    /// The TZ0 capacity the SEP manifest asks for.
    pub tz0_required_capacity: Option<i64>,
    /// The restore session's UUID (upper-case).
    pub uuid: String,
}

impl Default for RestoreOptions {
    /// The iOS-restore defaults, with a fresh random UUID.
    fn default() -> (r: RestoreOptions)
        ensures
            r.auto_boot_delay == 0,
            r.flash_nor,
            !r.update_baseband,
            r.personalized_during_preflight,
            r.restore_boot_args is None,
            r.baseband_nonce is None,
            r.bb_updater_state is None,
            r.tz0_required_capacity is None,
            crate::tss::is_uuid_v4_upper(r.uuid@),
    {
        RestoreOptions {
            auto_boot_delay: 0,
            flash_nor: true,
            update_baseband: false,
            personalized_during_preflight: true,
            restore_boot_args: None,
            baseband_nonce: None,
            bb_updater_state: None,
            tz0_required_capacity: None,
            uuid: crate::tss::random_uuid_upper(),
        }
    }
}

/// The pairs of a restore's options dictionary, in order.
pub open spec fn restore_option_pairs(o: RestoreOptions) -> Seq<(Seq<char>, PlistView)> {
    let base = seq![
        ("AutoBootDelay"@, PlistView::Integer(o.auto_boot_delay as int)),
        ("BootImageType"@, PlistView::String("UserOrInternal"@)),
        ("DFUFileType"@, PlistView::String("RELEASE"@)),
        ("DataImage"@, PlistView::Boolean(false)),
        ("FirmwareDirectory"@, PlistView::String("."@)),
        ("FlashNOR"@, PlistView::Boolean(o.flash_nor)),
        ("KernelCacheType"@, PlistView::String("Release"@)),
        ("NORImageType"@, PlistView::String("production"@)),
        ("RestoreBundlePath"@, PlistView::String("/tmp/Per2.tmp"@)),
        ("SystemImageType"@, PlistView::String("User"@)),
        ("UpdateBaseband"@, PlistView::Boolean(o.update_baseband)),
        ("HostHasFixFor99053849"@, PlistView::Boolean(true)),
        ("SystemImageFormat"@, PlistView::String("AEAWrappedDiskImage"@)),
        ("WaitForDeviceConnectionToFinishStateMachine"@, PlistView::Boolean(false)),
        (
            "SupportedAsyncDataTypes"@,
            PlistView::Dictionary(bool_table(supported_async_data_type_pairs())),
        ),
        ("PersonalizedDuringPreflight"@, PlistView::Boolean(o.personalized_during_preflight)),
        ("RootToInstall"@, PlistView::Boolean(false)),
        ("UUID"@, PlistView::String(o.uuid@)),
        ("CreateFilesystemPartitions"@, PlistView::Boolean(true)),
        ("SystemImage"@, PlistView::Boolean(true)),
        ("SystemPartitionPadding"@, PlistView::Dictionary(dict_from(partition_padding_pairs()))),
        ("SupportedDataTypes"@, PlistView::Dictionary(bool_table(supported_data_type_pairs()))),
        (
            "SupportedMessageTypes"@,
            PlistView::Dictionary(bool_table(supported_message_type_pairs())),
        ),
    ];
    let a = match o.restore_boot_args {
        Some(s) => seq![("RestoreBootArgs"@, PlistView::String(s@))],
        None => Seq::empty(),
    };
    let b = match o.baseband_nonce {
        Some(n) => seq![("BasebandNonce"@, PlistView::Data(n@))],
        None => Seq::empty(),
    };
    let c = match o.bb_updater_state {
        Some(s) => seq![("BBUpdaterState"@, PlistView::Dictionary(s@))],
        None => Seq::empty(),
    };
    let d = match o.tz0_required_capacity {
        Some(n) => seq![("TZ0RequiredCapacity"@, PlistView::Integer(n as int))],
        None => Seq::empty(),
    };
    base + a + b + c + d
}

impl RestoreOptions {
    /// Options with the iOS-restore defaults.
    pub fn new() -> (r: RestoreOptions)
        ensures
            r.auto_boot_delay == 0,
            r.flash_nor,
            !r.update_baseband,
            r.personalized_during_preflight,
            r.restore_boot_args is None,
            r.baseband_nonce is None,
            r.bb_updater_state is None,
            r.tz0_required_capacity is None,
            crate::tss::is_uuid_v4_upper(r.uuid@),
    {
        RestoreOptions::default()
    }

    /// The dictionary `StartRestore` sends: the fixed restore settings, the
    /// options, the supported types tables, and the optional settings that
    /// are given.
    pub fn build(&self) -> (r: PlistDict)
        ensures
            r@ == dict_from(restore_option_pairs(*self)),
    {
        let mut pairs: Vec<(&str, PlistValue)> = vec![
            ("AutoBootDelay", PlistValue::Integer(self.auto_boot_delay as i128)),
            ("BootImageType", PlistValue::String(String::from_str("UserOrInternal"))),
            ("DFUFileType", PlistValue::String(String::from_str("RELEASE"))),
            ("DataImage", PlistValue::Boolean(false)),
            ("FirmwareDirectory", PlistValue::String(String::from_str("."))),
            ("FlashNOR", PlistValue::Boolean(self.flash_nor)),
            ("KernelCacheType", PlistValue::String(String::from_str("Release"))),
            ("NORImageType", PlistValue::String(String::from_str("production"))),
            ("RestoreBundlePath", PlistValue::String(String::from_str("/tmp/Per2.tmp"))),
            ("SystemImageType", PlistValue::String(String::from_str("User"))),
            ("UpdateBaseband", PlistValue::Boolean(self.update_baseband)),
            ("HostHasFixFor99053849", PlistValue::Boolean(true)),
            ("SystemImageFormat", PlistValue::String(String::from_str("AEAWrappedDiskImage"))),
            ("WaitForDeviceConnectionToFinishStateMachine", PlistValue::Boolean(false)),
            ("SupportedAsyncDataTypes", PlistValue::Dictionary(supported_async_data_types())),
            ("PersonalizedDuringPreflight", PlistValue::Boolean(self.personalized_during_preflight)),
            ("RootToInstall", PlistValue::Boolean(false)),
            ("UUID", PlistValue::String(self.uuid.clone())),
            ("CreateFilesystemPartitions", PlistValue::Boolean(true)),
            ("SystemImage", PlistValue::Boolean(true)),
            ("SystemPartitionPadding", PlistValue::Dictionary(default_system_partition_padding())),
            ("SupportedDataTypes", PlistValue::Dictionary(supported_data_types())),
            ("SupportedMessageTypes", PlistValue::Dictionary(supported_message_types())),
        ];
        let ghost base = pair_views(pairs@);
        if let Some(args) = &self.restore_boot_args {
            pairs.push(("RestoreBootArgs", PlistValue::String(args.clone())));
        }
        let ghost with_a = pair_views(pairs@);
        if let Some(nonce) = &self.baseband_nonce {
            pairs.push(("BasebandNonce", PlistValue::Data(vstd::slice::slice_to_vec(nonce.as_slice()))));
        }
        let ghost with_b = pair_views(pairs@);
        if let Some(state) = &self.bb_updater_state {
            pairs.push(("BBUpdaterState", PlistValue::Dictionary(state.deep_clone())));
        }
        let ghost with_c = pair_views(pairs@);
        if let Some(cap) = self.tz0_required_capacity {
            pairs.push(("TZ0RequiredCapacity", PlistValue::Integer(cap as i128)));
        }
        assert(pair_views(pairs@) =~= restore_option_pairs(*self));
        dict_from_pairs(pairs)
    }
}

} // verus!
