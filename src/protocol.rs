//! The client build that a session claims to be.
use vstd::prelude::*;
use vstd::string::StringSliceAdditionalSpecFns;

verus! {

/// Identification of a client build.
pub struct ProtocolInfo {
    pub id: &'static str,
    pub name: &'static str,
    pub version: &'static str,
    pub sub_version: &'static str,
    pub sign: [u8; 16],
    pub build_time: u32,
    pub appid: u32,
    pub subid: u32,
    pub bitmap: u32,
    pub sigmap: u32,
    pub sso_version: u32,
    pub sdk_version: &'static str,
}

impl ProtocolInfo {
    /// The watch build of the Android client.
    pub fn android_watch() -> (r: ProtocolInfo)
        ensures
            r.appid == 16,
            r.subid == 537064446,
            r.sso_version == 5,
            r.build_time == 1559564731,
            r.bitmap == 16252796,
            r.sigmap == 34869472,
            r.id@ == "com.tencent.qqlite"@,
            r.name@ == "A2.0.5"@,
            r.version@ == "2.0.5"@,
            r.sub_version@ == "2.0.5"@,
            r.sdk_version@ == "6.0.0.236"@,
            r.sign@ == seq![
                166u8, 183, 69, 191, 36, 162, 194, 119, 82, 119, 22, 246, 243, 110, 182, 141,
            ],
            r.id.spec_bytes().len() == 18,
            r.version.spec_bytes().len() == 5,
    {
        let r = ProtocolInfo {
            id: "com.tencent.qqlite",
            name: "A2.0.5",
            version: "2.0.5",
            sub_version: "2.0.5",
            sign: [166, 183, 69, 191, 36, 162, 194, 119, 82, 119, 22, 246, 243, 110, 182, 141],
            build_time: 1559564731,
            appid: 16,
            subid: 537064446,
            bitmap: 16252796,
            sigmap: 34869472,
            sso_version: 5,
            sdk_version: "6.0.0.236",
        };
        proof {
            reveal_strlit("com.tencent.qqlite");
            reveal_strlit("2.0.5");
            vstd::string::is_ascii_spec_bytes(r.id);
            vstd::string::is_ascii_spec_bytes(r.version);
        }
        assert(r.sign@ =~= seq![
            166u8, 183, 69, 191, 36, 162, 194, 119, 82, 119, 22, 246, 243, 110, 182, 141,
        ]);
        r
    }
}

} // verus!
