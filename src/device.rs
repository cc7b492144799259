//! Devices as the backend reports them: a name, the format ranges supported
//! in each direction, and whether the device is still there.
use crate::error::{DefaultFormatError, FormatsEnumerationError};
use crate::format::{format_valid, ranges_valid, Format, SupportedFormat};
use vstd::prelude::*;

verus! {

/// Copies a list of format ranges.
fn copy_formats(formats: &Vec<SupportedFormat>) -> (r: Vec<SupportedFormat>)
    ensures
        r@ == formats@,
{
    let mut r: Vec<SupportedFormat> = Vec::with_capacity(formats.len());
    let mut i: usize = 0;
    while i < formats.len()
        invariant
            i <= formats@.len(),
            r@ == formats@.subrange(0, i as int),
        decreases formats@.len() - i,
    {
        r.push(formats[i]);
        i = i + 1;
        assert(r@ =~= formats@.subrange(0, i as int));
    }
    assert(r@ =~= formats@);
    r
}

/// The format ranges a device supports in one direction, taken one by one.
pub struct SupportedInputFormats {
    formats: Vec<SupportedFormat>,
    next: usize,
}

/// The format ranges a device supports for output, taken one by one.
pub struct SupportedOutputFormats {
    formats: Vec<SupportedFormat>,
    next: usize,
}

impl SupportedInputFormats {
    /// The ranges not yet taken.
    pub closed spec fn remaining(&self) -> Seq<SupportedFormat> {
        self.formats@.subrange(self.next as int, self.formats@.len() as int)
    }

    pub closed spec fn wf(&self) -> bool {
        self.next <= self.formats@.len()
    }

    /// Takes the next range, if any is left.
    pub fn next(&mut self) -> (r: Option<SupportedFormat>)
        requires
            old(self).wf(),
        ensures
            final(self).wf(),
            old(self).remaining().len() == 0 ==> r.is_none() && final(self).remaining()
                == old(self).remaining(),
            old(self).remaining().len() > 0 ==> r == Some(old(self).remaining()[0])
                && final(self).remaining() == old(self).remaining().drop_first(),
    {
        if self.next < self.formats.len() {
            let f = self.formats[self.next];
            self.next = self.next + 1;
            assert(self.remaining() =~= old(self).remaining().drop_first());
            Some(f)
        } else {
            None
        }
    }
}

impl SupportedOutputFormats {
    /// The ranges not yet taken.
    pub closed spec fn remaining(&self) -> Seq<SupportedFormat> {
        self.formats@.subrange(self.next as int, self.formats@.len() as int)
    }

    pub closed spec fn wf(&self) -> bool {
        self.next <= self.formats@.len()
    }

    /// Takes the next range, if any is left.
    pub fn next(&mut self) -> (r: Option<SupportedFormat>)
        requires
            old(self).wf(),
        ensures
            final(self).wf(),
            old(self).remaining().len() == 0 ==> r.is_none() && final(self).remaining()
                == old(self).remaining(),
            old(self).remaining().len() > 0 ==> r == Some(old(self).remaining()[0])
                && final(self).remaining() == old(self).remaining().drop_first(),
    {
        if self.next < self.formats.len() {
            let f = self.formats[self.next];
            self.next = self.next + 1;
            assert(self.remaining() =~= old(self).remaining().drop_first());
            Some(f)
        } else {
            None
        }
    }
}

/// An audio device capable of input, output or both.
pub struct Device {
    name: String,
    input_formats: Vec<SupportedFormat>,
    output_formats: Vec<SupportedFormat>,
    available: bool,
}

impl Device {
    /// Every range the device reports is well formed.
    #[verifier::type_invariant]
    spec fn ranges_well_formed(&self) -> bool {
        ranges_valid(self.input_formats@) && ranges_valid(self.output_formats@)
    }

    pub closed spec fn name_view(&self) -> Seq<char> {
        self.name@
    }

    /// Format ranges supported for input.
    pub closed spec fn inputs(&self) -> Seq<SupportedFormat> {
        self.input_formats@
    }

    /// Format ranges supported for output.
    pub closed spec fn outputs(&self) -> Seq<SupportedFormat> {
        self.output_formats@
    }

    /// Whether the device is still present.
    pub closed spec fn is_available(&self) -> bool {
        self.available
    }

    /// A present device with the given name and supported format ranges.
    pub fn new(
        name: String,
        input_formats: Vec<SupportedFormat>,
        output_formats: Vec<SupportedFormat>,
    ) -> (r: Device)
        requires
            ranges_valid(input_formats@),
            ranges_valid(output_formats@),
        ensures
            r.name_view() == name@,
            r.inputs() == input_formats@,
            r.outputs() == output_formats@,
            r.is_available(),
    {
        Device { name, input_formats, output_formats, available: true }
    }

    /// Marks the device as gone: every later query reports it unavailable.
    pub fn disconnect(&mut self)
        ensures
            final(self).name_view() == old(self).name_view(),
            final(self).inputs() == old(self).inputs(),
            final(self).outputs() == old(self).outputs(),
            !final(self).is_available(),
    {
        proof {
            use_type_invariant(&*self);
        }
        self.available = false;
    }

    pub(crate) fn input_formats_ref(&self) -> (r: &Vec<SupportedFormat>)
        ensures
            r@ == self.inputs(),
            ranges_valid(r@),
    {
        proof {
            use_type_invariant(self);
        }
        &self.input_formats
    }

    pub(crate) fn output_formats_ref(&self) -> (r: &Vec<SupportedFormat>)
        ensures
            r@ == self.outputs(),
            ranges_valid(r@),
    {
        proof {
            use_type_invariant(self);
        }
        &self.output_formats
    }

    /// The human-readable name of the device.
    pub fn name(&self) -> (r: String)
        ensures
            r@ == self.name_view(),
    {
        self.name.clone()
    }

    /// The format ranges supported for input, or an error if the device is
    /// gone.
    pub fn supported_input_formats(&self) -> (r: Result<
        SupportedInputFormats,
        FormatsEnumerationError,
    >)
        ensures
            self.is_available() ==> (r matches Ok(f) && f.wf() && f.remaining() == self.inputs()),
            r matches Ok(f) ==> ranges_valid(f.remaining()),
            !self.is_available() ==> r == Err::<SupportedInputFormats, _>(
                FormatsEnumerationError::DeviceNotAvailable,
            ),
    {
        if !self.available {
            return Err(FormatsEnumerationError::DeviceNotAvailable);
        }
        proof {
            use_type_invariant(self);
        }
        let formats = copy_formats(&self.input_formats);
        let r = SupportedInputFormats { formats, next: 0 };
        assert(r.remaining() =~= self.inputs());
        Ok(r)
    }

    /// The format ranges supported for output, or an error if the device is
    /// gone.
    pub fn supported_output_formats(&self) -> (r: Result<
        SupportedOutputFormats,
        FormatsEnumerationError,
    >)
        ensures
            self.is_available() ==> (r matches Ok(f) && f.wf() && f.remaining() == self.outputs()),
            r matches Ok(f) ==> ranges_valid(f.remaining()),
            !self.is_available() ==> r == Err::<SupportedOutputFormats, _>(
                FormatsEnumerationError::DeviceNotAvailable,
            ),
    {
        if !self.available {
            return Err(FormatsEnumerationError::DeviceNotAvailable);
        }
        proof {
            use_type_invariant(self);
        }
        let formats = copy_formats(&self.output_formats);
        let r = SupportedOutputFormats { formats, next: 0 };
        assert(r.remaining() =~= self.outputs());
        Ok(r)
    }

    /// The default input format: the first input range at its maximum rate.
    pub fn default_input_format(&self) -> (r: Result<Format, DefaultFormatError>)
        ensures
            !self.is_available() ==> r == Err::<Format, _>(DefaultFormatError::DeviceNotAvailable),
            self.is_available() && self.inputs().len() == 0 ==> r == Err::<Format, _>(
                DefaultFormatError::StreamTypeNotSupported,
            ),
            self.is_available() && self.inputs().len() > 0 ==> r == Ok::<_, DefaultFormatError>(
                default_of(self.inputs()[0]),
            ),
            r matches Ok(f) ==> format_valid(f),
    {
        proof {
            use_type_invariant(self);
        }
        if !self.available {
            Err(DefaultFormatError::DeviceNotAvailable)
        } else if self.input_formats.len() == 0 {
            Err(DefaultFormatError::StreamTypeNotSupported)
        } else {
            Ok(self.input_formats[0].with_max_sample_rate())
        }
    }

    /// The default output format: the first output range at its maximum rate.
    pub fn default_output_format(&self) -> (r: Result<Format, DefaultFormatError>)
        ensures
            !self.is_available() ==> r == Err::<Format, _>(DefaultFormatError::DeviceNotAvailable),
            self.is_available() && self.outputs().len() == 0 ==> r == Err::<Format, _>(
                DefaultFormatError::StreamTypeNotSupported,
            ),
            self.is_available() && self.outputs().len() > 0 ==> r == Ok::<_, DefaultFormatError>(
                default_of(self.outputs()[0]),
            ),
            r matches Ok(f) ==> format_valid(f),
    {
        proof {
            use_type_invariant(self);
        }
        if !self.available {
            Err(DefaultFormatError::DeviceNotAvailable)
        } else if self.output_formats.len() == 0 {
            Err(DefaultFormatError::StreamTypeNotSupported)
        } else {
            Ok(self.output_formats[0].with_max_sample_rate())
        }
    }
}

/// Whether the device is present and supports at least one input format.
pub open spec fn supports_input(d: Device) -> bool {
    d.is_available() && d.inputs().len() > 0
}

/// Whether the device is present and supports at least one output format.
pub open spec fn supports_output(d: Device) -> bool {
    d.is_available() && d.outputs().len() > 0
}

/// The devices of `ds` that support input (`input` true) or output, in order.
pub open spec fn devices_for(ds: Seq<Device>, input: bool) -> Seq<Device>
    decreases ds.len(),
{
    if ds.len() == 0 {
        Seq::empty()
    } else {
        let rest = devices_for(ds.drop_last(), input);
        let d = ds.last();
        if (input && supports_input(d)) || (!input && supports_output(d)) {
            rest.push(d)
        } else {
            rest
        }
    }
}

/// Index of the first device of `ds` that supports the direction, if any.
pub open spec fn first_for(ds: Seq<Device>, input: bool) -> Option<int>
    decreases ds.len(),
{
    if ds.len() == 0 {
        None
    } else {
        let d = ds[0];
        if (input && supports_input(d)) || (!input && supports_output(d)) {
            Some(0)
        } else {
            match first_for(ds.drop_first(), input) {
                Some(i) => Some(i + 1),
                None => None,
            }
        }
    }
}

/// The devices that a list of references points to.
pub open spec fn derefs(s: Seq<&Device>) -> Seq<Device> {
    s.map_values(|d: &Device| *d)
}

/// All devices the backend reports, in its order.
pub struct Devices {
    list: Vec<Device>,
}

impl Devices {
    pub closed spec fn view_list(&self) -> Seq<Device> {
        self.list@
    }

    /// The devices the backend reported.
    pub fn new(list: Vec<Device>) -> (r: Devices)
        ensures
            r.view_list() == list@,
    {
        Devices { list }
    }

    /// Number of devices.
    pub fn len(&self) -> (r: usize)
        ensures
            r == self.view_list().len(),
    {
        self.list.len()
    }

    /// The device at `index`, if there is one.
    pub fn get(&self, index: usize) -> (r: Option<&Device>)
        ensures
            index < self.view_list().len() ==> r == Some(&self.view_list()[index as int]),
            index >= self.view_list().len() ==> r is None,
    {
        if index < self.list.len() {
            Some(&self.list[index])
        } else {
            None
        }
    }
}

impl Device {
    /// Whether the device is present and has an input format.
    pub fn has_input(&self) -> (r: bool)
        ensures
            r == supports_input(*self),
    {
        self.available && self.input_formats.len() > 0
    }

    /// Whether the device is present and has an output format.
    pub fn has_output(&self) -> (r: bool)
        ensures
            r == supports_output(*self),
    {
        self.available && self.output_formats.len() > 0
    }
}

fn select(devices: &Devices, input: bool) -> (r: Vec<&Device>)
    ensures
        derefs(r@) == devices_for(devices.view_list(), input),
{
    let mut r: Vec<&Device> = Vec::new();
    let mut i: usize = 0;
    while i < devices.list.len()
        invariant
            i <= devices.list@.len(),
            derefs(r@) == devices_for(devices.list@.subrange(0, i as int), input),
        decreases devices.list@.len() - i,
    {
        let d = &devices.list[i];
        let keep = if input {
            d.has_input()
        } else {
            d.has_output()
        };
        let ghost prev = r@;
        if keep {
            r.push(d);
            assert(derefs(r@) =~= derefs(prev).push(*d));
        }
        proof {
            assert(devices.list@.subrange(0, i + 1).drop_last() =~= devices.list@.subrange(0, i as int));
        }
        i = i + 1;
    }
    assert(devices.list@.subrange(0, devices.list@.len() as int) =~= devices.list@);
    r
}

fn first(devices: &Devices, input: bool) -> (r: Option<&Device>)
    ensures
        first_for(devices.view_list(), input) matches Some(i) ==> r == Some(&devices.view_list()[i]),
        first_for(devices.view_list(), input) is None ==> r is None,
{
    let mut i: usize = 0;
    assert(devices.list@.subrange(0, devices.list@.len() as int) =~= devices.list@);
    while i < devices.list.len()
        invariant
            i <= devices.list@.len(),
            first_for(devices.list@, input) == (match first_for(devices.list@.subrange(i as int, devices.list@.len() as int), input) {
                Some(k) => Some(k + i),
                None => None::<int>,
            }),
        decreases devices.list@.len() - i,
    {
        let d = &devices.list[i];
        let found = if input {
            d.has_input()
        } else {
            d.has_output()
        };
        proof {
            let rest = devices.list@.subrange(i as int, devices.list@.len() as int);
            assert(rest.drop_first() =~= devices.list@.subrange(i + 1, devices.list@.len() as int));
            assert(rest[0] == devices.list@[i as int]);
        }
        if found {
            return Some(d);
        }
        i = i + 1;
    }
    None
}

/// Every device the backend reported.
pub fn devices(all: &Devices) -> (r: Vec<&Device>)
    ensures
        derefs(r@) == all.view_list(),
{
    let mut r: Vec<&Device> = Vec::new();
    let mut i: usize = 0;
    while i < all.list.len()
        invariant
            i <= all.list@.len(),
            derefs(r@) == all.list@.subrange(0, i as int),
        decreases all.list@.len() - i,
    {
        let ghost prev = r@;
        r.push(&all.list[i]);
        assert(derefs(r@) =~= derefs(prev).push(all.list@[i as int]));
        i = i + 1;
        assert(derefs(r@) =~= all.list@.subrange(0, i as int));
    }
    assert(all.list@.subrange(0, all.list@.len() as int) =~= all.list@);
    r
}

/// The devices that are present and support at least one input format.
pub fn input_devices(all: &Devices) -> (r: Vec<&Device>)
    ensures
        derefs(r@) == devices_for(all.view_list(), true),
{
    select(all, true)
}

/// The devices that are present and support at least one output format.
pub fn output_devices(all: &Devices) -> (r: Vec<&Device>)
    ensures
        derefs(r@) == devices_for(all.view_list(), false),
{
    select(all, false)
}

/// The default input device: the first one that supports input.
pub fn default_input_device(all: &Devices) -> (r: Option<&Device>)
    ensures
        first_for(all.view_list(), true) matches Some(i) ==> r == Some(&all.view_list()[i]),
        first_for(all.view_list(), true) is None ==> r is None,
{
    first(all, true)
}

/// The default output device: the first one that supports output.
pub fn default_output_device(all: &Devices) -> (r: Option<&Device>)
    ensures
        first_for(all.view_list(), false) matches Some(i) ==> r == Some(&all.view_list()[i]),
        first_for(all.view_list(), false) is None ==> r is None,
{
    first(all, false)
}

/// The format a range stands for by default: its maximum sample rate.
pub open spec fn default_of(range: SupportedFormat) -> Format {
    Format {
        channels: range.channels,
        sample_rate: range.max_sample_rate,
        data_type: range.data_type,
    }
}

} // verus!
