//! The description of the device that a session presents to the server.
use vstd::prelude::*;
use vstd::string::StringExecFns;
use vstd::utf8::encode_utf8;
use crate::wire::append_bytes;

verus! {

/// The decimal digits of `n`, most significant first.
pub open spec fn decimal(n: nat) -> Seq<char>
    decreases n,
{
    if n < 10 {
        seq![digit_char(n)]
    } else {
        decimal(n / 10) + seq![digit_char(n % 10)]
    }
}

pub open spec fn digit_char(d: nat) -> char {
    (('0' as nat) + d) as char
}

/// Relies on the `Display` of `u32` behind `to_string`: the decimal digits of
/// `n`, with no sign and no leading zero.
#[verifier::external_body]
fn u32_to_string(n: u32) -> (r: String)
    ensures
        r@ == decimal(n as nat),
{
    n.to_string()
}

/// The 16-byte MD5 digest of some bytes.
pub uninterp spec fn md5_digest(data: Seq<u8>) -> Seq<u8>;

/// Relies on `Md5` of md-5 through `digest::Digest::digest`: the MD5 digest of
/// `data`, 16 bytes long.
#[verifier::external_body]
fn md5_of(data: &[u8]) -> (r: [u8; 16])
    ensures
        r@ == md5_digest(data@),
{
    let mut arr = [0u8; 16];
    arr.copy_from_slice(&<md5::Md5 as digest::Digest>::digest(data));
    arr
}

/// The operating system a device runs.
#[derive(Debug, Clone, Copy, PartialEq, Eq, Structural)]
pub enum OSType {
    Android,
    Unknown,
}

/// How a device reaches the network.
#[derive(Debug, Clone, Copy, PartialEq, Eq, Structural)]
pub enum Apn {
    WiFi,
}

/// The name the access-point kind goes by in older code.
pub type APN = Apn;

/// The build of the operating system.
pub struct DeviceVersion {
    pub incremental: u32,
    pub release: String,
    pub codename: String,
    pub sdk: u8,
}

/// A device and its environment.
pub struct DeviceInfo {
    pub display: String,
    pub product: String,
    pub device: String,
    pub board: String,
    pub brand: String,
    pub model: String,
    pub bootloader: String,
    pub boot_id: String,
    pub proc_version: String,
    pub base_band: String,
    pub sim: String,
    pub os_type: OSType,
    pub mac_address: String,
    pub ip_address: [u8; 4],
    pub wifi_bssid: String,
    pub wifi_ssid: String,
    pub imei: String,
    pub android_id: String,
    pub apn: Apn,
    pub version: DeviceVersion,
    pub imsi: [u8; 16],
}

/// The build fingerprint of a device.
pub open spec fn fingerprint_spec(d: &DeviceInfo) -> Seq<char> {
    d.brand@ + "/"@ + d.product@ + "/"@ + d.device@ + ":10/"@ + d.android_id@ + "/"@ + decimal(
        d.version.incremental as nat,
    ) + ":user/release-keys"@
}

impl DeviceInfo {
    /// `brand/product/device:10/android_id/incremental:user/release-keys`.
    pub fn fingerprint(&self) -> (r: String)
        ensures
            r@ == fingerprint_spec(self),
    {
        let mut s = self.brand.clone();
        s.append("/");
        s.append(self.product.as_str());
        s.append("/");
        s.append(self.device.as_str());
        s.append(":10/");
        s.append(self.android_id.as_str());
        s.append("/");
        let inc = u32_to_string(self.version.incremental);
        s.append(inc.as_str());
        s.append(":user/release-keys");
        s
    }

    /// The device's identifier: the MD5 digest of its IMEI followed by its MAC
    /// address.
    pub fn guid(&self) -> (r: [u8; 16])
        ensures
            r@ == md5_digest(encode_utf8(self.imei@) + encode_utf8(self.mac_address@)),
    {
        let mut data: Vec<u8> = Vec::new();
        append_bytes(&mut data, self.imei.as_str().as_bytes());
        append_bytes(&mut data, self.mac_address.as_str().as_bytes());
        md5_of(data.as_slice())
    }
}

} // verus!
