use vstd::prelude::*;
use crate::text::{chars_to_string, str_to_chars};
use vstd::string::StringExecFns;

verus! {

/// The fields of a line split on a separator character. A line always has at
/// least one (possibly empty) field.
pub open spec fn split_on(s: Seq<char>, sep: char) -> Seq<Seq<char>>
    decreases s.len(),
{
    if s.len() == 0 {
        seq![Seq::<char>::empty()]
    } else if s[0] == sep {
        seq![Seq::<char>::empty()] + split_on(s.drop_first(), sep)
    } else {
        let rest = split_on(s.drop_first(), sep);
        seq![seq![s[0]] + rest[0]] + rest.drop_first()
    }
}

/// The organizationally-unique prefix of an address: the first three
/// colon-separated fields, concatenated. `fields` counts how many fields are
/// still to be collected.
pub open spec fn prefix_chars(addr: Seq<char>, fields: int) -> Seq<char>
    decreases addr.len(),
{
    if addr.len() == 0 || fields <= 0 {
        Seq::empty()
    } else if addr[0] == ':' {
        prefix_chars(addr.drop_first(), fields - 1)
    } else {
        seq![addr[0]] + prefix_chars(addr.drop_first(), fields)
    }
}

pub open spec fn oui_prefix_of(addr: Seq<char>) -> Seq<char> {
    prefix_chars(addr, 3)
}

/// Whether a table line records a vendor for the given prefix: it has at
/// least three comma-separated fields and its second field is the prefix.
pub open spec fn line_matches(line: Seq<char>, prefix: Seq<char>) -> bool {
    &&& split_on(line, ',').len() >= 3
    &&& split_on(line, ',')[1] == prefix
}

/// The vendor name the table records for a prefix: the third field of the
/// first matching line, or `"Unknown"` when no line matches.
pub open spec fn vendor_of(table: Seq<Seq<char>>, prefix: Seq<char>) -> Seq<char>
    decreases table.len(),
{
    if table.len() == 0 {
        "Unknown"@
    } else if line_matches(table[0], prefix) {
        split_on(table[0], ',')[2]
    } else {
        vendor_of(table.drop_first(), prefix)
    }
}

/// The views of the lines of a table held as strings.
pub open spec fn table_view(table: Seq<String>) -> Seq<Seq<char>> {
    crate::text::strings_view(table)
}

/// The views of the fields of a split line held as character vectors.
pub open spec fn parts_view(parts: Seq<Vec<char>>) -> Seq<Seq<char>> {
    parts.map_values(|p: Vec<char>| p@)
}

/// Splits a line of characters on a separator.
pub fn split_chars(s: &Vec<char>, sep: char) -> (r: Vec<Vec<char>>)
    ensures
        parts_view(r@) == split_on(s@, sep),
        r@.len() >= 1,
{
    let mut r: Vec<Vec<char>> = Vec::new();
    r.push(Vec::new());
    let mut i: usize = s.len();
    assert(s@.skip(i as int) =~= Seq::<char>::empty());
    assert(parts_view(r@) =~= seq![Seq::<char>::empty()]);
    while i > 0
        invariant
            i <= s@.len(),
            parts_view(r@) == split_on(s@.skip(i as int), sep),
            r@.len() >= 1,
        decreases i,
    {
        let c = s[i - 1];
        let ghost old_parts = parts_view(r@);
        proof {
            assert(s@.skip(i - 1).drop_first() =~= s@.skip(i as int));
            assert(s@.skip(i - 1)[0] == s@[i - 1]);
        }
        if c == sep {
            r.insert(0, Vec::new());
            assert(parts_view(r@) =~= seq![Seq::<char>::empty()] + old_parts);
        } else {
            let mut first = r.remove(0);
            first.insert(0, c);
            r.insert(0, first);
            proof {
                assert(old_parts.len() >= 1);
                assert(parts_view(r@) =~~= seq![seq![s@[i - 1]] + old_parts[0]]
                    + old_parts.drop_first());
            }
        }
        i -= 1;
    }
    assert(s@.skip(0) =~= s@);
    r
}

/// Extracts the organizationally-unique prefix (first three colon-separated
/// fields, concatenated) from a device address.
pub fn oui_prefix(address: &str) -> (r: Vec<char>)
    ensures
        r@ == oui_prefix_of(address@),
{
    let addr = str_to_chars(address);
    let mut r: Vec<char> = Vec::new();
    let mut i: usize = 0;
    let mut fields: u8 = 3;
    proof {
        assert(addr@.skip(0) =~= addr@);
        assert(r@ + prefix_chars(addr@, 3) =~= prefix_chars(addr@, 3));
    }
    while i < addr.len() && fields > 0
        invariant
            i <= addr@.len(),
            addr@ == address@,
            fields <= 3,
            oui_prefix_of(address@) == r@ + prefix_chars(addr@.skip(i as int), fields as int),
        decreases addr@.len() - i,
    {
        let c = addr[i];
        proof {
            assert(addr@.skip(i as int).drop_first() =~= addr@.skip(i + 1));
            assert(addr@.skip(i as int)[0] == addr@[i as int]);
        }
        if c == ':' {
            fields -= 1;
        } else {
            r.push(c);
            assert(r@ + prefix_chars(addr@.skip(i + 1), fields as int) =~= r@.drop_last() + (seq![
                addr@[i as int],
            ] + prefix_chars(addr@.skip(i + 1), fields as int)));
        }
        i += 1;
    }
    proof {
        if i == addr@.len() {
            assert(addr@.skip(i as int) =~= Seq::<char>::empty());
        }
        assert(prefix_chars(addr@.skip(i as int), fields as int) =~= Seq::<char>::empty());
        assert(r@ =~= oui_prefix_of(address@));
    }
    r
}

/// Character-vector equality.
pub fn chars_eq(a: &Vec<char>, b: &Vec<char>) -> (r: bool)
    ensures
        r == (a@ == b@),
{
    if a.len() != b.len() {
        assert(a@.len() != b@.len());
        return false;
    }
    let mut i: usize = 0;
    while i < a.len()
        invariant
            i <= a@.len(),
            a@.len() == b@.len(),
            forall|j: int| 0 <= j < i ==> a@[j] == b@[j],
        decreases a@.len() - i,
    {
        if a[i] != b[i] {
            return false;
        }
        i += 1;
    }
    assert(a@ =~= b@);
    true
}

/// Resolves the manufacturer recorded for a device address: extracts the
/// address's three-octet prefix and returns the third comma-separated field
/// of the first table line whose second field equals that prefix, or
/// `"Unknown"` when no line matches. Best-effort enrichment: it never fails.
pub fn get_manufacturer(address: &str, table: &Vec<String>) -> (r: String)
    ensures
        r@ == vendor_of(table_view(table@), oui_prefix_of(address@)),
{
    let prefix = oui_prefix(address);
    let ghost tv = table_view(table@);
    let mut j: usize = 0;
    assert(tv.skip(0) =~= tv);
    while j < table.len()
        invariant
            j <= table@.len(),
            tv == table_view(table@),
            prefix@ == oui_prefix_of(address@),
            vendor_of(tv, prefix@) == vendor_of(tv.skip(j as int), prefix@),
        decreases table@.len() - j,
    {
        proof {
            assert(tv.skip(j as int).drop_first() =~= tv.skip(j + 1));
            assert(tv.skip(j as int)[0] == tv[j as int]);
        }
        let line = str_to_chars(table[j].as_str());
        let cols = split_chars(&line, ',');
        if cols.len() >= 3 {
            let second = &cols[1];
            if chars_eq(second, &prefix) {
                assert(line_matches(tv[j as int], prefix@));
                let name = chars_to_string(&cols[2]);
                assert(name@ == vendor_of(tv, prefix@));
                return name;
            }
        }
        proof {
            assert(parts_view(cols@).len() == cols@.len());
            assert(!line_matches(tv[j as int], prefix@));
        }
        j += 1;
    }
    assert(tv.skip(table@.len() as int) =~= Seq::<Seq<char>>::empty());
    String::from_str("Unknown")
}

} // verus!
