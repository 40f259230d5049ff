use vstd::prelude::*;
use std::collections::HashMap;
use crate::intervals::PresenceInterval;
use crate::jsonio::{manufacturer_data_to_json, service_data_to_json};
use crate::numfmt::{
    address_kind_text, address_type_to_string, class_to_string, dec_str, opt_i16_text,
    opt_u32_text, rssi_to_string, tx_power_level_to_string, u64_to_string, AddressKind,
};
use crate::sanitize::{sanitize_string, sanitized};
use crate::session::{DeviceDetails, ScanSession};
use crate::text::{push_char, strings_view};
use crate::vendor::{get_manufacturer, oui_prefix_of, table_view, vendor_of};
use vstd::string::StringExecFns;

verus! {

/// Text parts joined with a separator.
pub open spec fn joined(parts: Seq<Seq<char>>, sep: Seq<char>) -> Seq<char>
    decreases parts.len(),
{
    if parts.len() == 0 {
        Seq::empty()
    } else if parts.len() == 1 {
        parts[0]
    } else {
        joined(parts.drop_last(), sep) + sep + parts.last()
    }
}

/// The report text of one presence interval: `start-end`.
pub open spec fn interval_text(iv: PresenceInterval) -> Seq<char> {
    dec_str(iv.start as int) + seq!['-'] + dec_str(iv.end as int)
}

/// The serialized interval list of a device: `start-end` pairs joined by
/// commas.
pub open spec fn intervals_text(s: Seq<PresenceInterval>) -> Seq<char> {
    joined(s.map_values(|iv: PresenceInterval| interval_text(iv)), seq![','])
}

/// Renders the merged interval ranges of one device.
pub fn intervals_to_string(intervals: &Vec<PresenceInterval>) -> (r: String)
    ensures
        r@ == intervals_text(intervals@),
{
    let ghost to_text = |iv: PresenceInterval| interval_text(iv);
    let mut out = String::new();
    let mut i: usize = 0;
    assert(intervals@.take(0).map_values(to_text) =~= Seq::<Seq<char>>::empty());
    while i < intervals.len()
        invariant
            i <= intervals@.len(),
            out@ == joined(intervals@.take(i as int).map_values(to_text), seq![',']),
            to_text == (|iv: PresenceInterval| interval_text(iv)),
        decreases intervals@.len() - i,
    {
        if i > 0 {
            push_char(&mut out, ',');
        }
        let iv = intervals[i];
        let s = u64_to_string(iv.start);
        out = out.concat(s.as_str());
        push_char(&mut out, '-');
        let e = u64_to_string(iv.end);
        out = out.concat(e.as_str());
        proof {
            let parts = intervals@.take(i + 1).map_values(to_text);
            let parts_prev = intervals@.take(i as int).map_values(to_text);
            assert(parts.drop_last() =~~= parts_prev);
            assert(parts.last() == interval_text(intervals@[i as int]));
            if i == 0 {
                assert(out@ =~= parts[0]);
            } else {
                assert(out@ =~= joined(parts_prev, seq![',']) + seq![','] + parts.last());
            }
        }
        i += 1;
    }
    assert(intervals@.take(intervals@.len() as int) =~= intervals@);
    out
}

/// The serialized advertised-service list: the identifiers joined by
/// comma-space inside square brackets; `[]` when none are advertised.
pub open spec fn service_list_text(items: Seq<Seq<char>>) -> Seq<char> {
    seq!['['] + joined(items, seq![',', ' ']) + seq![']']
}

/// Renders the advertised-service list of one device.
pub fn services_to_string(services: &Vec<String>) -> (r: String)
    ensures
        r@ == service_list_text(strings_view(services@)),
{
    let mut out = String::new();
    push_char(&mut out, '[');
    let mut i: usize = 0;
    assert(strings_view(services@.take(0)) =~= Seq::<Seq<char>>::empty());
    assert(out@ =~= seq!['['] + joined(strings_view(services@.take(0)), seq![',', ' ']));
    while i < services.len()
        invariant
            i <= services@.len(),
            out@ == seq!['['] + joined(strings_view(services@.take(i as int)), seq![',', ' ']),
        decreases services@.len() - i,
    {
        if i > 0 {
            push_char(&mut out, ',');
            push_char(&mut out, ' ');
        }
        out = out.concat(services[i].as_str());
        proof {
            let parts = strings_view(services@.take(i + 1));
            let parts_prev = strings_view(services@.take(i as int));
            assert(parts.drop_last() =~~= parts_prev);
            assert(parts.last() == services@[i as int]@);
            if i == 0 {
                assert(out@ =~= seq!['['] + parts[0]);
            } else {
                assert(out@ =~= seq!['['] + (joined(parts_prev, seq![',', ' ']) + seq![',', ' ']
                    + parts.last()));
            }
        }
        i += 1;
    }
    push_char(&mut out, ']');
    assert(services@.take(services@.len() as int) =~= services@);
    assert(out@ =~= service_list_text(strings_view(services@)));
    out
}

/// One keyed record of the output document.
pub struct ReportEntry {
    pub key: String,
    pub fields: Vec<(String, String)>,
}

/// The output document of a run: keyed records in order.
pub struct ReportDocument {
    pub entries: Vec<ReportEntry>,
}

/// The views of a record's field list.
pub open spec fn fields_view(fields: Seq<(String, String)>) -> Seq<(Seq<char>, Seq<char>)> {
    fields.map_values(|p: (String, String)| (p.0@, p.1@))
}

pub open spec fn opt_view(o: Option<String>) -> Option<Seq<char>> {
    match o {
        None => None,
        Some(s) => Some(s@),
    }
}

/// The fields of one report record, in order: the enriched metadata keyed by
/// its field names, with the serialized interval list appended in scheduled
/// mode only.
pub open spec fn record_fields(
    d: DeviceDetails,
    id: Seq<char>,
    durations: Option<Seq<char>>,
) -> Seq<(Seq<char>, Seq<char>)> {
    let base = seq![
        ("address_type"@, d.address_type@),
        ("classe"@, d.device_class@),
        ("fabricant"@, d.manufacturer@),
        ("local_name"@, d.local_name@),
        ("mac_bluetooth"@, id),
        ("manufacturer_data"@, d.manufacturer_data@),
        ("rssi"@, d.rssi@),
        ("service_data"@, d.service_data@),
        ("services"@, d.services@),
        ("tx_power_level"@, d.tx_power_level@),
    ];
    match durations {
        None => base,
        Some(t) => base.push(("bluetooth_durations"@, t)),
    }
}

fn make_fields(d: &DeviceDetails, id: &String, durations: Option<String>) -> (r: Vec<
    (String, String),
>)
    ensures
        fields_view(r@) == record_fields(*d, id@, opt_view(durations)),
{
    let mut r: Vec<(String, String)> = Vec::new();
    r.push((String::from_str("address_type"), d.address_type.clone()));
    r.push((String::from_str("classe"), d.device_class.clone()));
    r.push((String::from_str("fabricant"), d.manufacturer.clone()));
    r.push((String::from_str("local_name"), d.local_name.clone()));
    r.push((String::from_str("mac_bluetooth"), id.clone()));
    r.push((String::from_str("manufacturer_data"), d.manufacturer_data.clone()));
    r.push((String::from_str("rssi"), d.rssi.clone()));
    r.push((String::from_str("service_data"), d.service_data.clone()));
    r.push((String::from_str("services"), d.services.clone()));
    r.push((String::from_str("tx_power_level"), d.tx_power_level.clone()));
    match durations {
        None => {
            assert(fields_view(r@) =~= record_fields(*d, id@, None));
            r
        },
        Some(t) => {
            r.push((String::from_str("bluetooth_durations"), t));
            assert(fields_view(r@) =~= record_fields(*d, id@, Some(t@)));
            r
        },
    }
}

/// Builds the report-ready details of one sighting: resolves the vendor for
/// the address prefix and sanitizes it, sanitizes the display name
/// (`"Unknown"` when absent), renders the radio readings, and flattens the
/// advertised data maps and service list into embedded text.
pub fn build_details(
    address: &str,
    vendor_table: &Vec<String>,
    address_type: Option<AddressKind>,
    device_class: Option<u32>,
    local_name: Option<String>,
    manufacturer_data: &HashMap<u16, Vec<u8>>,
    service_data: &HashMap<String, Vec<u8>>,
    services: &Vec<String>,
    rssi: Option<i16>,
    tx_power_level: Option<i16>,
) -> (d: DeviceDetails)
    ensures
        d.manufacturer@ == sanitized(
            vendor_of(table_view(vendor_table@), oui_prefix_of(address@)),
        ),
        d.local_name@ == match local_name {
            Some(n) => sanitized(n@),
            None => sanitized("Unknown"@),
        },
        d.address_type@ == address_kind_text(address_type),
        d.device_class@ == opt_u32_text(device_class),
        d.rssi@ == opt_i16_text(rssi),
        d.tx_power_level@ == opt_i16_text(tx_power_level),
        d.services@ == service_list_text(strings_view(services@)),
        d.manufacturer_data@.len() >= 2,
        d.service_data@.len() >= 2,
        manufacturer_data@.len() == 0 ==> d.manufacturer_data@ == "{}"@,
        service_data@.len() == 0 ==> d.service_data@ == "{}"@,
{
    let raw_manufacturer = get_manufacturer(address, vendor_table);
    let manufacturer = sanitize_string(raw_manufacturer);
    let name = match local_name {
        Some(n) => n,
        None => String::from_str("Unknown"),
    };
    let sanitized_name = sanitize_string(name);
    let md = match manufacturer_data_to_json(manufacturer_data) {
        Some(s) => s,
        None => String::from_str("{}"),
    };
    let sd = match service_data_to_json(service_data) {
        Some(s) => s,
        None => String::from_str("{}"),
    };
    proof {
        reveal_strlit("{}");
    }
    DeviceDetails {
        address_type: address_type_to_string(address_type),
        device_class: class_to_string(device_class),
        manufacturer,
        local_name: sanitized_name,
        manufacturer_data: md,
        service_data: sd,
        services: services_to_string(services),
        rssi: rssi_to_string(rssi),
        tx_power_level: tx_power_level_to_string(tx_power_level),
    }
}

/// An instant-mode report: one record per snapshot device, keyed by a
/// contiguous zero-based decimal index in snapshot order, with no interval
/// field.
pub fn build_instant_report(snapshot: &Vec<(String, DeviceDetails)>) -> (r: ReportDocument)
    ensures
        r.entries@.len() == snapshot@.len(),
        forall|i: int|
            0 <= i < snapshot@.len() ==> {
                &&& (#[trigger] r.entries@[i]).key@ == dec_str(i)
                &&& fields_view(r.entries@[i].fields@) == record_fields(
                    snapshot@[i].1,
                    snapshot@[i].0@,
                    None,
                )
            },
{
    let mut entries: Vec<ReportEntry> = Vec::new();
    let mut i: usize = 0;
    while i < snapshot.len()
        invariant
            i <= snapshot@.len(),
            entries@.len() == i,
            forall|j: int|
                0 <= j < i ==> {
                    &&& (#[trigger] entries@[j]).key@ == dec_str(j)
                    &&& fields_view(entries@[j].fields@) == record_fields(
                        snapshot@[j].1,
                        snapshot@[j].0@,
                        None,
                    )
                },
        decreases snapshot@.len() - i,
    {
        let key = u64_to_string(i as u64);
        let pair = &snapshot[i];
        let fields = make_fields(&pair.1, &pair.0, None);
        entries.push(ReportEntry { key, fields });
        i += 1;
    }
    ReportDocument { entries }
}

/// A scheduled-mode report: one record per device seen during the run, keyed
/// by device identifier — the keys are exactly the distinct identifiers
/// seen, in first-seen order — with the merged intervals serialized as
/// comma-joined `start-end` pairs.
pub fn build_scheduled_report(session: &ScanSession) -> (r: ReportDocument)
    requires
        session.wf(),
    ensures
        r.entries@.len() == session.records@.len(),
        forall|i: int|
            0 <= i < session.records@.len() ==> {
                &&& (#[trigger] r.entries@[i]).key@ == session.records@[i].device_id@
                &&& fields_view(r.entries@[i].fields@) == record_fields(
                    session.records@[i].details,
                    session.records@[i].device_id@,
                    Some(intervals_text(session.records@[i].intervals@)),
                )
            },
        forall|i: int, j: int|
            0 <= i < j < r.entries@.len() ==> r.entries@[i].key@ != r.entries@[j].key@,
{
    let mut entries: Vec<ReportEntry> = Vec::new();
    let mut i: usize = 0;
    while i < session.records.len()
        invariant
            session.wf(),
            i <= session.records@.len(),
            entries@.len() == i,
            forall|j: int|
                0 <= j < i ==> {
                    &&& (#[trigger] entries@[j]).key@ == session.records@[j].device_id@
                    &&& fields_view(entries@[j].fields@) == record_fields(
                        session.records@[j].details,
                        session.records@[j].device_id@,
                        Some(intervals_text(session.records@[j].intervals@)),
                    )
                },
        decreases session.records@.len() - i,
    {
        let rec = &session.records[i];
        let key = rec.device_id.clone();
        let dur = intervals_to_string(&rec.intervals);
        let fields = make_fields(&rec.details, &rec.device_id, Some(dur));
        entries.push(ReportEntry { key, fields });
        i += 1;
    }
    proof {
        let ids = crate::session::ids_of(session.records@);
        assert(ids.no_duplicates());
        assert forall|a: int, b: int|
            0 <= a < b < entries@.len() implies entries@[a].key@ != entries@[b].key@ by {
            assert(entries@[a].key@ == session.records@[a].device_id@);
            assert(entries@[b].key@ == session.records@[b].device_id@);
            assert(ids[a] == session.records@[a].device_id@);
            assert(ids[b] == session.records@[b].device_id@);
            assert(ids[a] != ids[b]);
        }
    }
    ReportDocument { entries }
}

} // verus!
