//! The advertisement-decoder capability: a registry of pure decoders
//! composed in registration order, and the one concrete decoder for the
//! Ruuvi data-format-5 sensor payload.

use vstd::prelude::*;

verus! {

use vstd::string::StringExecFns;
use crate::device::DeviceInfo;
use crate::text::tenths_rendering;
use crate::text::tenths_string;

/// One labeled value produced by a decoder for the detail view.
pub struct DetailItem {
    pub label: String,
    pub value: String,
}

impl View for DetailItem {
    type V = (Seq<char>, Seq<char>);

    open spec fn view(&self) -> (Seq<char>, Seq<char>) {
        (self.label@, self.value@)
    }
}

impl DeepView for DetailItem {
    type V = (Seq<char>, Seq<char>);

    open spec fn deep_view(&self) -> (Seq<char>, Seq<char>) {
        self@
    }
}

/// The text of an optional string result.
pub open spec fn opt_text(o: Option<String>) -> Option<Seq<char>> {
    match o {
        Some(s) => Some(s@),
        None => None,
    }
}

/// A stateless, total decoder of advertisement payloads: both operations
/// treat any malformed, short or absent payload as "not applicable" and
/// never fail.
pub trait PeripheralDecoder: Sized {
    /// What the inline annotation reads for a device, if anything.
    spec fn summary_model(&self, device: DeviceInfo) -> Option<Seq<char>>;

    /// The labeled values the decoder contributes for a device.
    spec fn details_model(&self, device: DeviceInfo) -> Seq<(Seq<char>, Seq<char>)>;

    /// A short inline annotation, or none when the decoder finds nothing
    /// applicable.
    fn summary(&self, device: &DeviceInfo) -> (r: Option<String>)
        ensures
            opt_text(r) == self.summary_model(*device),
    ;

    /// Zero or more labeled values; empty when not applicable.
    fn details(&self, device: &DeviceInfo) -> (r: Vec<DetailItem>)
        ensures
            r.deep_view() == self.details_model(*device),
    ;
}

/// The Ruuvi manufacturer-data payload of a device, if present.
pub open spec fn ruuvi_payload(d: DeviceInfo) -> Option<Seq<u8>> {
    if d.manufacturer_data@.contains_key(0x0499u16) {
        Some(d.manufacturer_data@[0x0499u16]@)
    } else {
        None
    }
}

/// A payload decodes as data format 5 when it carries the format tag in
/// its first byte and is long enough for the two sensor fields.
pub open spec fn format5_applicable(p: Seq<u8>) -> bool {
    p.len() >= 5 && p[0] == 0x05
}

pub open spec fn be16(hi: u8, lo: u8) -> int {
    hi * 256 + lo
}

/// The signed big-endian temperature field; the minimum representable
/// value marks the reading as undefined.
pub open spec fn format5_temp_raw(p: Seq<u8>) -> Option<i16> {
    if be16(p[1], p[2]) == 0x8000 {
        None
    } else if be16(p[1], p[2]) < 0x8000 {
        Some(be16(p[1], p[2]) as i16)
    } else {
        Some((be16(p[1], p[2]) - 0x10000) as i16)
    }
}

/// The unsigned big-endian humidity field; the maximum representable
/// value marks the reading as undefined.
pub open spec fn format5_hum_raw(p: Seq<u8>) -> Option<u16> {
    if be16(p[3], p[4]) == 0xFFFF {
        None
    } else {
        Some(be16(p[3], p[4]) as u16)
    }
}

/// Thousandths rounded to tenths, half away from zero.
pub open spec fn tenths_from_milli(milli: int) -> int {
    if milli >= 0 {
        (milli + 50) / 100
    } else {
        -((-milli + 50) / 100)
    }
}

/// Temperature in tenths of a degree Celsius: the raw count is in units
/// of five thousandths of a degree.
pub open spec fn ruuvi_temp_tenths(traw: i16) -> int {
    tenths_from_milli(traw * 5)
}

/// Relative humidity in tenths of a percent: the raw count is in units
/// of twenty-five hundred-thousandths of a percent.
pub open spec fn ruuvi_hum_tenths(hraw: u16) -> int {
    (hraw + 20) / 40
}

pub open spec fn ruuvi_temp_text(traw: i16) -> Seq<char> {
    tenths_rendering(ruuvi_temp_tenths(traw)) + " C"@
}

pub open spec fn ruuvi_hum_text(hraw: u16) -> Seq<char> {
    tenths_rendering(ruuvi_hum_tenths(hraw)) + "%"@
}

/// The decoded readings of a device's Ruuvi payload: none when no such
/// payload applies, otherwise the two optional fields.
pub open spec fn ruuvi_fields(d: DeviceInfo) -> Option<(Option<i16>, Option<u16>)> {
    match ruuvi_payload(d) {
        Some(p) => if format5_applicable(p) {
            Some((format5_temp_raw(p), format5_hum_raw(p)))
        } else {
            None
        },
        None => None,
    }
}

/// The inline annotation: present fields joined temperature first, space
/// separated; none when nothing is defined.
pub open spec fn ruuvi_summary_model(d: DeviceInfo) -> Option<Seq<char>> {
    match ruuvi_fields(d) {
        Some(f) => match (f.0, f.1) {
            (Some(t), Some(h)) => Some(
                tenths_rendering(ruuvi_temp_tenths(t)) + " C "@ + tenths_rendering(
                    ruuvi_hum_tenths(h),
                ) + "%"@,
            ),
            (Some(t), None) => Some(ruuvi_temp_text(t)),
            (None, Some(h)) => Some(ruuvi_hum_text(h)),
            (None, None) => None,
        },
        None => None,
    }
}

/// The detail items: one labeled value per defined field, temperature
/// first.
pub open spec fn ruuvi_details_model(d: DeviceInfo) -> Seq<(Seq<char>, Seq<char>)> {
    match ruuvi_fields(d) {
        Some(f) => {
            let temp_items: Seq<(Seq<char>, Seq<char>)> = match f.0 {
                Some(t) => seq![("Ruuvi temperature"@, ruuvi_temp_text(t))],
                None => Seq::empty(),
            };
            let hum_items: Seq<(Seq<char>, Seq<char>)> = match f.1 {
                Some(h) => seq![("Ruuvi humidity"@, ruuvi_hum_text(h))],
                None => Seq::empty(),
            };
            temp_items + hum_items
        },
        None => Seq::empty(),
    }
}

/// Decodes the two sensor fields of the Ruuvi data-format-5 payload.
pub struct RuuviDecoder;

impl RuuviDecoder {
    /// Reads the temperature and humidity fields of a format-5 payload,
    /// or nothing when the payload is not format 5.
    pub fn decode_format5(data: &[u8]) -> (r: Option<(Option<i16>, Option<u16>)>)
        ensures
            match r {
                Some(f) => format5_applicable(data@) && f.0 == format5_temp_raw(data@) && f.1
                    == format5_hum_raw(data@),
                None => !format5_applicable(data@),
            },
    {
        if data.len() < 5 {
            return None;
        }
        if data[0] != 0x05 {
            return None;
        }
        let raw_t: u16 = (data[1] as u16) * 256 + (data[2] as u16);
        let raw_h: u16 = (data[3] as u16) * 256 + (data[4] as u16);
        let temp: Option<i16> = if raw_t == 0x8000 {
            None
        } else if raw_t < 0x8000 {
            Some(raw_t as i16)
        } else {
            Some(((raw_t as i32) - 0x10000) as i16)
        };
        let hum: Option<u16> = if raw_h == 0xFFFF {
            None
        } else {
            Some(raw_h)
        };
        Some((temp, hum))
    }
}

/// Temperature tenths, within rendering range.
fn temp_tenths_exec(traw: i16) -> (r: i32)
    ensures
        r == ruuvi_temp_tenths(traw),
        -1700 <= r <= 1700,
{
    let milli: i32 = (traw as i32) * 5;
    if milli >= 0 {
        (((milli as u32) + 50) / 100) as i32
    } else {
        -(((((-milli) as u32) + 50) / 100) as i32)
    }
}

/// Humidity tenths, within rendering range.
fn hum_tenths_exec(hraw: u16) -> (r: i32)
    ensures
        r == ruuvi_hum_tenths(hraw),
        0 <= r <= 1700,
{
    (((hraw as u32) + 20) / 40) as i32
}

fn ruuvi_temp_string(traw: i16) -> (r: String)
    ensures
        r@ == ruuvi_temp_text(traw),
{
    let t = temp_tenths_exec(traw);
    let mut s = tenths_string(t);
    s.append(" C");
    s
}

fn ruuvi_hum_string(hraw: u16) -> (r: String)
    ensures
        r@ == ruuvi_hum_text(hraw),
{
    let h = hum_tenths_exec(hraw);
    let mut s = tenths_string(h);
    s.append("%");
    s
}

impl PeripheralDecoder for RuuviDecoder {
    open spec fn summary_model(&self, device: DeviceInfo) -> Option<Seq<char>> {
        ruuvi_summary_model(device)
    }

    open spec fn details_model(&self, device: DeviceInfo) -> Seq<(Seq<char>, Seq<char>)> {
        ruuvi_details_model(device)
    }

    fn summary(&self, device: &DeviceInfo) -> (r: Option<String>) {
        let payload = match device.manufacturer_data.get(&0x0499u16) {
            Some(p) => p,
            None => {
                return None;
            },
        };
        let fields = match Self::decode_format5(payload.as_slice()) {
            Some(f) => f,
            None => {
                return None;
            },
        };
        match fields {
            (Some(t), Some(h)) => {
                let mut s = tenths_string(temp_tenths_exec(t));
                s.append(" C ");
                let hs = tenths_string(hum_tenths_exec(h));
                s.append(hs.as_str());
                s.append("%");
                proof {
                    assert(s@ =~= ruuvi_summary_model(*device)->Some_0);
                }
                Some(s)
            },
            (Some(t), None) => Some(ruuvi_temp_string(t)),
            (None, Some(h)) => Some(ruuvi_hum_string(h)),
            (None, None) => None,
        }
    }

    fn details(&self, device: &DeviceInfo) -> (r: Vec<DetailItem>) {
        let mut out: Vec<DetailItem> = Vec::new();
        let payload = match device.manufacturer_data.get(&0x0499u16) {
            Some(p) => p,
            None => {
                proof {
                    assert(out.deep_view() =~= ruuvi_details_model(*device));
                }
                return out;
            },
        };
        let fields = match Self::decode_format5(payload.as_slice()) {
            Some(f) => f,
            None => {
                proof {
                    assert(out.deep_view() =~= ruuvi_details_model(*device));
                }
                return out;
            },
        };
        if let Some(t) = fields.0 {
            out.push(
                DetailItem { label: "Ruuvi temperature".to_owned(), value: ruuvi_temp_string(t) },
            );
        }
        if let Some(h) = fields.1 {
            out.push(DetailItem { label: "Ruuvi humidity".to_owned(), value: ruuvi_hum_string(h) });
        }
        proof {
            assert(out.deep_view() =~= ruuvi_details_model(*device));
        }
        out
    }
}

/// The decoders registered by default, in registration order.
pub fn default_decoders() -> (r: Vec<RuuviDecoder>)
    ensures
        r@ == seq![RuuviDecoder],
{
    let mut v: Vec<RuuviDecoder> = Vec::new();
    v.push(RuuviDecoder);
    proof {
        assert(v@ =~= seq![RuuviDecoder]);
    }
    v
}

/// The composed annotation: the first decoder with something to say, in
/// registration order.
pub open spec fn registry_summary_model<D: PeripheralDecoder>(
    ds: Seq<D>,
    device: DeviceInfo,
) -> Option<Seq<char>>
    decreases ds.len(),
{
    if ds.len() == 0 {
        None
    } else {
        match ds[0].summary_model(device) {
            Some(s) => Some(s),
            None => registry_summary_model(ds.drop_first(), device),
        }
    }
}

/// The composed details: every decoder's items, concatenated in
/// registration order.
pub open spec fn registry_details_model<D: PeripheralDecoder>(
    ds: Seq<D>,
    device: DeviceInfo,
) -> Seq<(Seq<char>, Seq<char>)>
    decreases ds.len(),
{
    if ds.len() == 0 {
        Seq::empty()
    } else {
        ds[0].details_model(device) + registry_details_model(ds.drop_first(), device)
    }
}

/// The sum of the individual decoders' detail counts.
pub open spec fn details_len_sum<D: PeripheralDecoder>(ds: Seq<D>, device: DeviceInfo) -> int
    decreases ds.len(),
{
    if ds.len() == 0 {
        0
    } else {
        ds[0].details_model(device).len() + details_len_sum(ds.drop_first(), device)
    }
}

/// Law: the composed details of a registry are as many as the registered
/// decoders' individual outputs together — composition concatenates and
/// never drops or invents an item.
pub proof fn lemma_details_composition<D: PeripheralDecoder>(ds: Seq<D>, device: DeviceInfo)
    ensures
        registry_details_model(ds, device).len() == details_len_sum(ds, device),
    decreases ds.len(),
{
    if ds.len() != 0 {
        lemma_details_composition(ds.drop_first(), device);
    }
}

proof fn lemma_registry_details_snoc<D: PeripheralDecoder>(ds: Seq<D>, d: D, device: DeviceInfo)
    ensures
        registry_details_model(ds.push(d), device) == registry_details_model(ds, device)
            + d.details_model(device),
    decreases ds.len(),
{
    if ds.len() == 0 {
        assert(ds.push(d)[0] == d);
        assert(ds.push(d).drop_first() =~= Seq::<D>::empty());
        assert(registry_details_model(ds.push(d).drop_first(), device) =~= Seq::<(
            Seq<char>,
            Seq<char>,
        )>::empty());
        assert(registry_details_model(ds.push(d), device) =~~= registry_details_model(ds, device)
            + d.details_model(device));
    } else {
        lemma_registry_details_snoc(ds.drop_first(), d, device);
        assert(ds.push(d)[0] == ds[0]);
        assert(ds.push(d).drop_first() =~= ds.drop_first().push(d));
        assert(registry_details_model(ds.push(d), device) =~~= registry_details_model(ds, device)
            + d.details_model(device));
    }
}

/// The first non-empty annotation over the registered decoders, scanning
/// in registration order.
pub fn device_summary<D: PeripheralDecoder>(decoders: &Vec<D>, device: &DeviceInfo) -> (r: Option<
    String,
>)
    ensures
        opt_text(r) == registry_summary_model(decoders@, *device),
{
    let n = decoders.len();
    proof {
        assert(decoders@.skip(0) =~= decoders@);
    }
    let mut i: usize = 0;
    while i < n
        invariant
            n == decoders@.len(),
            i <= n,
            registry_summary_model(decoders@, *device) == registry_summary_model(
                decoders@.skip(i as int),
                *device,
            ),
        decreases n - i,
    {
        let s = decoders[i].summary(device);
        proof {
            assert(decoders@.skip(i as int)[0] == decoders@[i as int]);
            assert(decoders@.skip(i as int).drop_first() =~= decoders@.skip(i as int + 1));
        }
        if s.is_some() {
            return s;
        }
        i += 1;
    }
    None
}

/// Every registered decoder's detail items, concatenated in registration
/// order.
pub fn decoded_details<D: PeripheralDecoder>(decoders: &Vec<D>, device: &DeviceInfo) -> (r: Vec<
    DetailItem,
>)
    ensures
        r.deep_view() == registry_details_model(decoders@, *device),
{
    let n = decoders.len();
    let mut out: Vec<DetailItem> = Vec::new();
    proof {
        assert(out.deep_view() =~= registry_details_model(decoders@.take(0), *device));
    }
    let mut i: usize = 0;
    while i < n
        invariant
            n == decoders@.len(),
            i <= n,
            out.deep_view() == registry_details_model(decoders@.take(i as int), *device),
        decreases n - i,
    {
        let mut items = decoders[i].details(device);
        out.append(&mut items);
        proof {
            lemma_registry_details_snoc(decoders@.take(i as int), decoders@[i as int], *device);
            assert(decoders@.take(i as int).push(decoders@[i as int]) =~= decoders@.take(
                i as int + 1,
            ));
            assert(out.deep_view() =~= registry_details_model(decoders@.take(i as int + 1), *device));
        }
        i += 1;
    }
    proof {
        assert(decoders@.take(n as int) =~= decoders@);
    }
    out
}

} // verus!
