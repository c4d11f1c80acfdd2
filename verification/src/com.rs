//! The class factory's checks, and what is written to the registry.

use vstd::prelude::*;
use vstd::string::*;

use crate::utf16;
use crate::utf16::utf16z;

verus! {

/// The class id of the text service.
pub const CLSID_STR: &'static str = "{8F5C2A10-3E77-4B9C-A1D4-9E0B7C2F5A88}";

/// The file that serves the class.
pub const SERVER_PATH: &'static str = "hufu-tsf.dll";

/// The result code of success.
pub const S_OK: i32 = 0;

/// The result code of success that is not whole: less came than was asked for.
pub const S_FALSE: i32 = 1;

/// The result code of a failure without a name.
pub const E_FAIL: i32 = -2147467259;

/// The result code of a missing pointer.
pub const E_POINTER: i32 = -2147467261;

/// The result code of an argument that does not fit.
pub const E_INVALIDARG: i32 = -2147024809;

/// The result code of a wish for aggregation.
pub const CLASS_E_NOAGGREGATION: i32 = -2147221231;

/// Makes instances of the text service.
#[derive(Clone, Copy, Debug, PartialEq, Eq, Structural)]
pub struct HuFuClassFactory;

impl HuFuClassFactory {
    /// Whether an instance can be made: the service is not aggregated, and needs a place for the
    /// interface that is asked for.
    pub fn create_instance(&self, outer: bool, interface: bool, place: bool) -> (r: Result<(), i32>)
        ensures
            r == if outer {
                Err(CLASS_E_NOAGGREGATION)
            } else if !interface || !place {
                Err(E_POINTER)
            } else {
                Ok::<(), i32>(())
            },
    {
        if outer {
            return Err(CLASS_E_NOAGGREGATION);
        }
        if !interface || !place {
            return Err(E_POINTER);
        }
        Ok(())
    }
}

/// A value in the registry, below the user's root.
#[derive(Debug)]
pub struct RegEntry {
    pub subkey: String,
    /// The value's name, or none for the key's own value.
    pub name: Option<String>,
    pub value: String,
}

impl RegEntry {
    /// Whether the entry holds these texts.
    pub open spec fn is(self, subkey: Seq<char>, name: Option<Seq<char>>, value: Seq<char>) -> bool {
        &&& self.subkey@ == subkey
        &&& crate::session::opt_text(self.name) == name
        &&& self.value@ == value
    }
}

/// The key of the class.
pub open spec fn class_key() -> Seq<char> {
    "Software\\Classes\\CLSID\\"@ + CLSID_STR@
}

/// The key of the text service.
pub open spec fn tip_key() -> Seq<char> {
    "Software\\Microsoft\\CTF\\TIP\\"@ + CLSID_STR@
}

fn key_of(root: &str, rest: &str) -> (r: String)
    ensures
        r@ == root@ + CLSID_STR@ + rest@,
{
    let mut s = root.to_owned();
    s.append(CLSID_STR);
    s.append(rest);
    s
}

fn entry(subkey: String, name: Option<String>, value: &str) -> (r: RegEntry)
    ensures
        r.is(subkey@, crate::session::opt_text(name), value@),
{
    RegEntry { subkey, name, value: value.to_owned() }
}

/// The values that register the service, in the order in which they are written.
pub fn server_entries() -> (r: Vec<RegEntry>)
    ensures
        r.len() == 7,
        r[0].is(class_key(), None, "HuFu TSF Service"@),
        r[1].is(class_key() + "\\InprocServer32"@, None, SERVER_PATH@),
        r[2].is(class_key() + "\\InprocServer32"@, Some("ThreadingModel"@), "Apartment"@),
        r[3].is(tip_key(), None, "HuFu 输入法"@),
        r[4].is(tip_key() + "\\Description"@, None, "HuFu 虎符输入法（虎码）"@),
        r[5].is(
            tip_key() + "\\Category"@,
            Some("Item"@),
            "{533C5E0E-5AC0-4ABD-B6F1-251B82B7BE7D}"@,
        ),
        r[6].is(
            tip_key() + "\\Profiles\\"@ + CLSID_STR@,
            Some("Description"@),
            "HuFu 虎符输入法"@,
        ),
{
    let class = "Software\\Classes\\CLSID\\";
    let tip = "Software\\Microsoft\\CTF\\TIP\\";
    let mut profile = key_of(tip, "\\Profiles\\");
    profile.append(CLSID_STR);
    proof {
        reveal_strlit("");
        assert(class_key() + ""@ =~= class_key());
        assert(tip_key() + ""@ =~= tip_key());
    }
    let mut r: Vec<RegEntry> = Vec::new();
    r.push(entry(key_of(class, ""), None, "HuFu TSF Service"));
    r.push(entry(key_of(class, "\\InprocServer32"), None, SERVER_PATH));
    r.push(
        entry(key_of(class, "\\InprocServer32"), Some("ThreadingModel".to_owned()), "Apartment"),
    );
    r.push(entry(key_of(tip, ""), None, "HuFu 输入法"));
    r.push(entry(key_of(tip, "\\Description"), None, "HuFu 虎符输入法（虎码）"));
    r.push(
        entry(
            key_of(tip, "\\Category"),
            Some("Item".to_owned()),
            "{533C5E0E-5AC0-4ABD-B6F1-251B82B7BE7D}",
        ),
    );
    r.push(entry(profile, Some("Description".to_owned()), "HuFu 虎符输入法"));
    r
}

/// The result code of the registration, from the error of the first value that was written: only
/// that one counts.
pub fn register_result(first: u32) -> (r: i32)
    ensures
        r == if first == 0 {
            S_OK
        } else {
            (first | 0x8007_0000u32) as i32
        },
{
    if first == 0 {
        S_OK
    } else {
        (first | 0x8007_0000u32) as i32
    }
}

/// A registration that fails has a code that means failure.
pub proof fn failed_registration_fails(first: u32)
    requires
        first != 0,
    ensures
        ((first | 0x8007_0000u32) as i32) < 0,
{
    assert(((first | 0x8007_0000u32) as i32) < 0) by (bit_vector);
}

/// The keys that go with everything below them when the service is unregistered.
pub fn server_keys() -> (r: Vec<String>)
    ensures
        r.len() == 2,
        r[0]@ == class_key(),
        r[1]@ == tip_key(),
        r[0]@ == "Software\\Classes\\CLSID\\"@ + "{8F5C2A10-3E77-4B9C-A1D4-9E0B7C2F5A88}"@,
        r[1]@ == "Software\\Microsoft\\CTF\\TIP\\"@ + "{8F5C2A10-3E77-4B9C-A1D4-9E0B7C2F5A88}"@,
{
    let mut r: Vec<String> = Vec::new();
    proof {
        reveal_strlit("");
        assert(class_key() + ""@ =~= class_key());
        assert(tip_key() + ""@ =~= tip_key());
    }
    r.push(key_of("Software\\Classes\\CLSID\\", ""));
    r.push(key_of("Software\\Microsoft\\CTF\\TIP\\", ""));
    r
}

/// Code units as bytes, the low byte first.
pub open spec fn unit_bytes(u: Seq<u16>) -> Seq<u8>
    decreases u.len(),
{
    if u.len() == 0 {
        seq![]
    } else {
        unit_bytes(u.drop_last()).push((u.last() % 256) as u8).push((u.last() / 256) as u8)
    }
}

/// The bytes of a text value: its code units with a NUL behind them, the low byte first.
pub fn value_bytes(value: &str) -> (r: Vec<u8>)
    ensures
        r@ == unit_bytes(utf16::utf16(value@).push(0u16)),
{
    let u = utf16z(value);
    let mut r: Vec<u8> = Vec::new();
    for i in 0..u.len()
        invariant
            r@ == unit_bytes(u@.take(i as int)),
    {
        assert(u@.take(i + 1).drop_last() =~= u@.take(i as int));
        r.push((u[i] % 256) as u8);
        r.push((u[i] / 256) as u8);
    }
    assert(u@.take(u.len() as int) =~= u@);
    r
}

proof fn bytes_then(a: Seq<u16>, b: Seq<u16>)
    ensures
        unit_bytes(a + b) == unit_bytes(a) + unit_bytes(b),
    decreases b.len(),
{
    if b.len() == 0 {
        assert(a + b =~= a);
        assert(unit_bytes(a) + unit_bytes(b) =~= unit_bytes(a));
    } else {
        bytes_then(a, b.drop_last());
        assert((a + b).drop_last() =~= a + b.drop_last());
        assert(unit_bytes(a + b) =~= unit_bytes(a) + unit_bytes(b));
    }
}

proof fn bytes_first(u: Seq<u16>)
    requires
        u.len() > 0,
    ensures
        unit_bytes(u).len() >= 2,
        unit_bytes(u)[0] == (u[0] % 256) as u8,
        unit_bytes(u)[1] == (u[0] / 256) as u8,
        unit_bytes(u).skip(2) == unit_bytes(u.skip(1)),
{
    let one = u.take(1);
    bytes_then(one, u.skip(1));
    assert(one + u.skip(1) =~= u);
    assert(one.drop_last() =~= Seq::<u16>::empty());
    assert(unit_bytes(one.drop_last()) =~= Seq::<u8>::empty());
    assert(unit_bytes(one) =~= seq![(u[0] % 256) as u8, (u[0] / 256) as u8]);
    assert(unit_bytes(u).skip(2) =~= unit_bytes(u.skip(1)));
}

/// What a value's bytes hold is read back up to its first NUL.
pub proof fn value_reads_back(u: Seq<u16>)
    requires
        forall|i: int| 0 <= i < u.len() ==> u[i] != 0,
    ensures
        crate::ipc::registry_units(unit_bytes(u.push(0u16))) == u,
    decreases u.len(),
{
    let all = u.push(0u16);
    bytes_first(all);
    let b = unit_bytes(all);
    assert((b[0] + 256 * b[1]) as u16 == all[0]);
    if u.len() == 0 {
        assert(crate::ipc::registry_units(b) =~= u);
    } else {
        assert(all.skip(1) =~= u.skip(1).push(0u16));
        value_reads_back(u.skip(1));
        assert(seq![u[0]] + u.skip(1) =~= u);
    }
}

/// A code unit takes two bytes, the low one first.
pub proof fn low_byte_comes_first(u: Seq<u16>, i: int)
    requires
        0 <= i < u.len(),
    ensures
        unit_bytes(u).len() == 2 * u.len(),
        unit_bytes(u)[2 * i] == u[i] % 0x100,
        unit_bytes(u)[2 * i + 1] == u[i] / 0x100,
    decreases u.len(),
{
    let d = u.drop_last();
    unit_bytes_len(d);
    if i < d.len() {
        low_byte_comes_first(d, i);
        assert(d[i] == u[i]);
    }
}

proof fn unit_bytes_len(u: Seq<u16>)
    ensures
        unit_bytes(u).len() == 2 * u.len(),
    decreases u.len(),
{
    if u.len() > 0 {
        unit_bytes_len(u.drop_last());
    }
}

} // verus!
