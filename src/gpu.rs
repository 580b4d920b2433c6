//! GPU inventory records and the rules that pick GPUs out of an inventory.
use vstd::prelude::*;
use vstd::string::*;
use crate::text::{
    contains_text, eq_ignore_ascii_case, has_infix, has_prefix, same_text, text_eq_ignore_ascii_case,
    trim_spec, trim_ws,
};

verus! {

/// The maker of a GPU, as told by its PCI vendor id.
#[allow(non_camel_case_types)]
#[derive(Debug, Clone, Copy, PartialEq, Eq, Hash, Structural)]
pub enum GPUVendor {
    UNKNOWN,
    INTEL,
    NVIDIA,
    AMD,
}

/// One GPU of the machine: its maker, its DRM card and render nodes, its
/// name and its PCI bus address.
#[derive(Debug, Clone, PartialEq, Eq, Hash)]
pub struct GPUInfo {
    vendor: GPUVendor,
    card_path: String,
    render_path: String,
    device_name: String,
    pci_bus_id: String,
}

/// The display name of a vendor.
pub open spec fn vendor_label(v: GPUVendor) -> Seq<char> {
    match v {
        GPUVendor::INTEL => "Intel"@,
        GPUVendor::NVIDIA => "NVIDIA"@,
        GPUVendor::AMD => "AMD"@,
        GPUVendor::UNKNOWN => "Unknown"@,
    }
}

/// The vendor that a PCI vendor id (four lower-case hex digits) stands for.
pub open spec fn vendor_of_id(id: Seq<char>) -> GPUVendor {
    if id == "8086"@ {
        GPUVendor::INTEL
    } else if id == "10de"@ {
        GPUVendor::NVIDIA
    } else if id == "1002"@ {
        GPUVendor::AMD
    } else {
        GPUVendor::UNKNOWN
    }
}

/// Whether `g` is reached by the device path `path`: its card node or its
/// render node, compared without ASCII case.
pub open spec fn matches_path(g: GPUInfo, path: Seq<char>) -> bool {
    eq_ignore_ascii_case(g.spec_card_path(), path) || eq_ignore_ascii_case(g.spec_render_path(), path)
}

/// The vendor that a PCI vendor id stands for; any id other than Intel's,
/// NVIDIA's or AMD's gives `UNKNOWN`.
pub fn get_gpu_vendor(vendor_id: &str) -> (r: GPUVendor)
    ensures
        r == vendor_of_id(vendor_id@),
{
    if same_text(vendor_id, "8086") {
        GPUVendor::INTEL
    } else if same_text(vendor_id, "10de") {
        GPUVendor::NVIDIA
    } else if same_text(vendor_id, "1002") {
        GPUVendor::AMD
    } else {
        GPUVendor::UNKNOWN
    }
}

impl GPUInfo {
    /// A record of one GPU.
    pub fn new(
        vendor: GPUVendor,
        card_path: String,
        render_path: String,
        device_name: String,
        pci_bus_id: String,
    ) -> (r: Self)
        ensures
            r.spec_vendor() == vendor,
            r.spec_card_path() == card_path@,
            r.spec_render_path() == render_path@,
            r.spec_device_name() == device_name@,
            r.spec_pci_bus_id() == pci_bus_id@,
    {
        GPUInfo { vendor, card_path, render_path, device_name, pci_bus_id }
    }

    pub closed spec fn spec_vendor(&self) -> GPUVendor {
        self.vendor
    }

    pub closed spec fn spec_card_path(&self) -> Seq<char> {
        self.card_path@
    }

    pub closed spec fn spec_render_path(&self) -> Seq<char> {
        self.render_path@
    }

    pub closed spec fn spec_device_name(&self) -> Seq<char> {
        self.device_name@
    }

    pub closed spec fn spec_pci_bus_id(&self) -> Seq<char> {
        self.pci_bus_id@
    }

    /// A copy of this record, field for field.
    pub fn duplicate(&self) -> (r: Self)
        ensures
            r == *self,
    {
        GPUInfo {
            vendor: self.vendor,
            card_path: self.card_path.clone(),
            render_path: self.render_path.clone(),
            device_name: self.device_name.clone(),
            pci_bus_id: self.pci_bus_id.clone(),
        }
    }

    pub fn vendor(&self) -> (r: &GPUVendor)
        ensures
            *r == self.spec_vendor(),
    {
        &self.vendor
    }

    /// The vendor's display name: "Intel", "NVIDIA", "AMD" or "Unknown".
    pub fn vendor_string(&self) -> (r: &str)
        ensures
            r@ == vendor_label(self.spec_vendor()),
    {
        match self.vendor {
            GPUVendor::INTEL => "Intel",
            GPUVendor::NVIDIA => "NVIDIA",
            GPUVendor::AMD => "AMD",
            GPUVendor::UNKNOWN => "Unknown",
        }
    }

    pub fn card_path(&self) -> (r: &str)
        ensures
            r@ == self.spec_card_path(),
    {
        self.card_path.as_str()
    }

    pub fn render_path(&self) -> (r: &str)
        ensures
            r@ == self.spec_render_path(),
    {
        self.render_path.as_str()
    }

    pub fn device_name(&self) -> (r: &str)
        ensures
            r@ == self.spec_device_name(),
    {
        self.device_name.as_str()
    }

    pub fn pci_bus_id(&self) -> (r: &str)
        ensures
            r@ == self.spec_pci_bus_id(),
    {
        self.pci_bus_id.as_str()
    }
}

/// The first GPU whose card node or render node is `path` (ASCII letters
/// compared without case), if there is one.
pub fn get_gpu_by_card_path(gpus: &[GPUInfo], path: &str) -> (r: Option<GPUInfo>)
    ensures
        match r {
            Some(g) => exists|i: int|
                0 <= i < gpus@.len() && g == gpus@[i] && matches_path(gpus@[i], path@) && forall|j: int|
                    0 <= j < i ==> !matches_path(#[trigger] gpus@[j], path@),
            None => forall|j: int| 0 <= j < gpus@.len() ==> !matches_path(#[trigger] gpus@[j], path@),
        },
{
    let mut i: usize = 0;
    while i < gpus.len()
        invariant
            i <= gpus@.len(),
            forall|j: int| 0 <= j < i ==> !matches_path(#[trigger] gpus@[j], path@),
        decreases gpus@.len() - i,
    {
        let g = &gpus[i];
        if text_eq_ignore_ascii_case(g.card_path.as_str(), path) || text_eq_ignore_ascii_case(
            g.render_path.as_str(),
            path,
        ) {
            return Some(g.duplicate());
        }
        i = i + 1;
    }
    None
}

/// What `str::to_lowercase` makes of a text (Unicode lower-case mapping).
pub uninterp spec fn lower_of(s: Seq<char>) -> Seq<char>;

/// What `str::to_uppercase` makes of a text (Unicode upper-case mapping).
pub uninterp spec fn upper_of(s: Seq<char>) -> Seq<char>;

/// Relies on `str::to_lowercase`: the result depends on the characters alone.
#[verifier::external_body]
fn lowercase(s: &str) -> (r: String)
    ensures
        r@ == lower_of(s@),
{
    s.to_lowercase()
}

/// Relies on `str::to_uppercase`: the result depends on the characters alone.
#[verifier::external_body]
fn uppercase(s: &str) -> (r: String)
    ensures
        r@ == upper_of(s@),
{
    s.to_uppercase()
}

/// Whether the vendor of `g` is `target`, compared in lower case.
pub open spec fn vendor_matches(g: GPUInfo, target: Seq<char>) -> bool {
    lower_of(vendor_label(g.spec_vendor())) == lower_of(target)
}

/// Whether the name of `g` holds `part`, both compared in lower case.
pub open spec fn name_matches(g: GPUInfo, part: Seq<char>) -> bool {
    has_infix(lower_of(g.spec_device_name()), lower_of(part))
}

/// Whether `g` is an NVIDIA GPU at PCI address `bus_id` (upper case).
pub open spec fn nvidia_at(g: GPUInfo, bus_id: Seq<char>) -> bool {
    g.spec_vendor() == GPUVendor::NVIDIA && upper_of(g.spec_pci_bus_id()) == bus_id
}

/// A PCI address with its domain part ("00000000:" or "0000:") taken off.
pub open spec fn strip_domain(s: Seq<char>) -> Seq<char> {
    if s.len() >= 9 && s.take(9) == "00000000:"@ {
        s.skip(9)
    } else if s.len() >= 5 && s.take(5) == "0000:"@ {
        s.skip(5)
    } else {
        s
    }
}

/// The GPUs made by `vendor` ("intel", "nvidia", "amd", "unknown"; compared in
/// lower case), in inventory order.
pub fn get_gpus_by_vendor(gpus: &[GPUInfo], vendor: &str) -> (r: Vec<GPUInfo>)
    ensures
        r@ == gpus@.filter(|g: GPUInfo| vendor_matches(g, vendor@)),
{
    let target = lowercase(vendor);
    let mut r: Vec<GPUInfo> = Vec::new();
    let mut i: usize = 0;
    while i < gpus.len()
        invariant
            i <= gpus@.len(),
            target@ == lower_of(vendor@),
            r@ == gpus@.take(i as int).filter(|g: GPUInfo| vendor_matches(g, vendor@)),
        decreases gpus@.len() - i,
    {
        let g = &gpus[i];
        let name = lowercase(g.vendor_string());
        proof {
            reveal(Seq::filter);
            assert(gpus@.take(i + 1).drop_last() =~= gpus@.take(i as int));
        }
        if name == target {
            r.push(g.duplicate());
        }
        i = i + 1;
    }
    assert(gpus@.take(i as int) =~= gpus@);
    r
}

/// The GPUs whose name holds `substring` (compared in lower case), in
/// inventory order.
pub fn get_gpus_by_device_name(gpus: &[GPUInfo], substring: &str) -> (r: Vec<GPUInfo>)
    ensures
        r@ == gpus@.filter(|g: GPUInfo| name_matches(g, substring@)),
{
    let target = lowercase(substring);
    let mut r: Vec<GPUInfo> = Vec::new();
    let mut i: usize = 0;
    while i < gpus.len()
        invariant
            i <= gpus@.len(),
            target@ == lower_of(substring@),
            r@ == gpus@.take(i as int).filter(|g: GPUInfo| name_matches(g, substring@)),
        decreases gpus@.len() - i,
    {
        let g = &gpus[i];
        let name = lowercase(g.device_name());
        proof {
            reveal(Seq::filter);
            assert(gpus@.take(i + 1).drop_last() =~= gpus@.take(i as int));
        }
        if contains_text(name.as_str(), target.as_str()) {
            r.push(g.duplicate());
        }
        i = i + 1;
    }
    assert(gpus@.take(i as int) =~= gpus@);
    r
}

/// Takes the domain part ("00000000:" or the older "0000:") off a PCI
/// address, as `nvidia-smi` prints it, leaving bus, device and function.
pub fn strip_pci_domain(id: &str) -> (r: String)
    ensures
        r@ == strip_domain(id@),
{
    proof {
        reveal_strlit("00000000:");
        reveal_strlit("0000:");
    }
    let n = id.unicode_len();
    if has_prefix(id, "00000000:") {
        id.substring_char(9, n).to_owned()
    } else if has_prefix(id, "0000:") {
        id.substring_char(5, n).to_owned()
    } else {
        id.to_owned()
    }
}

/// The PCI address in what `nvidia-smi --query-gpu=pci.bus_id` printed:
/// white space trimmed, in upper case, without its domain part.
pub fn normalize_bus_id(output: &str) -> (r: String)
    ensures
        r@ == strip_domain(upper_of(trim_spec(output@))),
{
    let upper = uppercase(trim_ws(output));
    strip_pci_domain(upper.as_str())
}

/// The first NVIDIA GPU whose PCI address, in upper case, is `bus_id`.
pub fn get_nvidia_gpu_by_bus_id(gpus: &[GPUInfo], bus_id: &str) -> (r: Option<GPUInfo>)
    ensures
        match r {
            Some(g) => exists|i: int|
                0 <= i < gpus@.len() && g == gpus@[i] && nvidia_at(gpus@[i], bus_id@) && forall|j: int|
                    0 <= j < i ==> !nvidia_at(#[trigger] gpus@[j], bus_id@),
            None => forall|j: int| 0 <= j < gpus@.len() ==> !nvidia_at(#[trigger] gpus@[j], bus_id@),
        },
{
    let mut i: usize = 0;
    while i < gpus.len()
        invariant
            i <= gpus@.len(),
            forall|j: int| 0 <= j < i ==> !nvidia_at(#[trigger] gpus@[j], bus_id@),
        decreases gpus@.len() - i,
    {
        let g = &gpus[i];
        if g.vendor == GPUVendor::NVIDIA {
            let upper = uppercase(g.pci_bus_id());
            if same_text(upper.as_str(), bus_id) {
                return Some(g.duplicate());
            }
        }
        i = i + 1;
    }
    None
}

/// Why no GPU could be selected.
#[derive(Debug, Clone, Copy, PartialEq, Eq, Structural)]
pub enum GpuSelectError {
    /// The inventory is empty.
    NoGpus,
    /// The requested index is not below the number of GPUs left by the filters
    /// (the index, then that number).
    IndexOutOfRange(usize, usize),
    /// The filters left no GPU of a known vendor.
    NoMatch,
}

/// Whether `g` is of a known vendor.
pub open spec fn known_vendor(g: GPUInfo) -> bool {
    g.spec_vendor() != GPUVendor::UNKNOWN
}

/// The selection made by vendor, name and index, when no device path is
/// forced: each non-empty filter narrows the inventory in turn; a
/// non-negative index then picks one GPU of what is left, while a negative
/// one keeps all that are of a known vendor.
pub open spec fn filter_select(
    gpus: Seq<GPUInfo>,
    vendor: Seq<char>,
    name: Seq<char>,
    index: int,
) -> Result<Seq<GPUInfo>, GpuSelectError> {
    let f1 = if vendor.len() > 0 {
        gpus.filter(|g: GPUInfo| vendor_matches(g, vendor))
    } else {
        gpus
    };
    let f2 = if name.len() > 0 {
        f1.filter(|g: GPUInfo| name_matches(g, name))
    } else {
        f1
    };
    if index >= 0 {
        if index >= f2.len() {
            Err(GpuSelectError::IndexOutOfRange(index as usize, f2.len() as usize))
        } else {
            Ok(seq![f2[index]])
        }
    } else {
        let f3 = f2.filter(|g: GPUInfo| known_vendor(g));
        if f3.len() == 0 {
            Err(GpuSelectError::NoMatch)
        } else {
            Ok(f3)
        }
    }
}

/// A copy of every record of `gpus`.
fn copy_all(gpus: &[GPUInfo]) -> (r: Vec<GPUInfo>)
    ensures
        r@ == gpus@,
{
    let mut r: Vec<GPUInfo> = Vec::new();
    let mut i: usize = 0;
    while i < gpus.len()
        invariant
            i <= gpus@.len(),
            r@ == gpus@.take(i as int),
        decreases gpus@.len() - i,
    {
        r.push(gpus[i].duplicate());
        i = i + 1;
        assert(r@ =~= gpus@.take(i as int));
    }
    assert(gpus@.take(i as int) =~= gpus@);
    r
}

/// The GPUs of a known vendor among `gpus`, in order.
fn known_vendors(gpus: &[GPUInfo]) -> (r: Vec<GPUInfo>)
    ensures
        r@ == gpus@.filter(|g: GPUInfo| known_vendor(g)),
{
    let mut r: Vec<GPUInfo> = Vec::new();
    let mut i: usize = 0;
    while i < gpus.len()
        invariant
            i <= gpus@.len(),
            r@ == gpus@.take(i as int).filter(|g: GPUInfo| known_vendor(g)),
        decreases gpus@.len() - i,
    {
        proof {
            reveal(Seq::filter);
            assert(gpus@.take(i + 1).drop_last() =~= gpus@.take(i as int));
        }
        if gpus[i].vendor != GPUVendor::UNKNOWN {
            r.push(gpus[i].duplicate());
        }
        i = i + 1;
    }
    assert(gpus@.take(i as int) =~= gpus@);
    r
}

/// Picks the GPUs to use from the inventory `gpus`.
///
/// A non-empty `card_path` forces the first GPU with that card or render
/// node; when none has it, the whole inventory is kept. Otherwise the vendor
/// and name filters apply when non-empty, and `index`, when not negative,
/// picks one GPU of what they leave; a negative `index` keeps every GPU of a
/// known vendor among them.
pub fn select_gpus(
    gpus: &[GPUInfo],
    card_path: &str,
    vendor: &str,
    name: &str,
    index: i32,
) -> (r: Result<Vec<GPUInfo>, GpuSelectError>)
    ensures
        gpus@.len() == 0 ==> r == Err::<Vec<GPUInfo>, GpuSelectError>(GpuSelectError::NoGpus),
        gpus@.len() > 0 && card_path@.len() > 0 ==> r is Ok && ((exists|i: int|
            0 <= i < gpus@.len() && r->Ok_0@ == seq![gpus@[i]] && matches_path(gpus@[i], card_path@)
                && forall|j: int| 0 <= j < i ==> !matches_path(#[trigger] gpus@[j], card_path@)) || (
        (forall|j: int| 0 <= j < gpus@.len() ==> !matches_path(#[trigger] gpus@[j], card_path@))
            && r->Ok_0@ == gpus@)),
        gpus@.len() > 0 && card_path@.len() == 0 ==> match filter_select(
            gpus@,
            vendor@,
            name@,
            index as int,
        ) {
            Ok(s) => r is Ok && r->Ok_0@ == s,
            Err(e) => r == Err::<Vec<GPUInfo>, GpuSelectError>(e),
        },
{
    if gpus.len() == 0 {
        return Err(GpuSelectError::NoGpus);
    }
    if card_path.unicode_len() > 0 {
        return match get_gpu_by_card_path(gpus, card_path) {
            Some(g) => {
                let mut r: Vec<GPUInfo> = Vec::new();
                r.push(g);
                Ok(r)
            },
            None => Ok(copy_all(gpus)),
        };
    }
    let f1 = if vendor.unicode_len() > 0 {
        get_gpus_by_vendor(gpus, vendor)
    } else {
        copy_all(gpus)
    };
    let f2 = if name.unicode_len() > 0 {
        get_gpus_by_device_name(f1.as_slice(), name)
    } else {
        f1
    };
    if index >= 0 {
        let i = index as usize;
        if i >= f2.len() {
            return Err(GpuSelectError::IndexOutOfRange(i, f2.len()));
        }
        let mut r: Vec<GPUInfo> = Vec::new();
        r.push(f2[i].duplicate());
        Ok(r)
    } else {
        let f3 = known_vendors(f2.as_slice());
        if f3.len() == 0 {
            Err(GpuSelectError::NoMatch)
        } else {
            Ok(f3)
        }
    }
}

/// The audio encoder to use: the one asked for, or `opusenc` when none is.
pub fn choose_audio_encoder(requested: &str) -> (r: String)
    ensures
        requested@.len() == 0 ==> r@ == "opusenc"@,
        requested@.len() > 0 ==> r@ == requested@,
{
    if requested.unicode_len() == 0 {
        "opusenc".to_owned()
    } else {
        requested.to_owned()
    }
}

} // verus!
