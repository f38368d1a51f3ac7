//! Port descriptors: what the operating system reports about a serial port,
//! and the flat description handed on to callers.

use vstd::prelude::*;

verus! {

/// How a serial port is attached to the machine.
#[derive(Clone, Copy, Debug, PartialEq, Eq, Structural)]
pub enum BusType {
    Usb,
    Bluetooth,
    Pci,
    Unknown,
}

impl BusType {
    /// The lower-case name of the bus type, as a sequence of characters.
    pub open spec fn label_text(self) -> Seq<char> {
        match self {
            BusType::Usb => "usb"@,
            BusType::Bluetooth => "bluetooth"@,
            BusType::Pci => "pci"@,
            BusType::Unknown => "unknown"@,
        }
    }

    /// The lower-case name under which the bus type is shown to callers.
    pub fn label(self) -> (text: &'static str)
        ensures
            text@ == self.label_text(),
    {
        match self {
            BusType::Usb => "usb",
            BusType::Bluetooth => "bluetooth",
            BusType::Pci => "pci",
            BusType::Unknown => "unknown",
        }
    }
}

/// What the driver of a USB serial adapter reports about the device. The two
/// numeric ids are always reported; each of the strings may be missing.
#[derive(Clone, Debug)]
pub struct UsbIdentity {
    pub vendor_id: u16,
    pub product_id: u16,
    pub serial_number: Option<String>,
    pub manufacturer: Option<String>,
    pub product: Option<String>,
}

/// Mathematical model of a [`UsbIdentity`].
pub struct UsbIdentityView {
    pub vendor_id: u16,
    pub product_id: u16,
    pub serial_number: Option<Seq<char>>,
    pub manufacturer: Option<Seq<char>>,
    pub product: Option<Seq<char>>,
}

impl View for UsbIdentity {
    type V = UsbIdentityView;

    open spec fn view(&self) -> UsbIdentityView {
        UsbIdentityView {
            vendor_id: self.vendor_id,
            product_id: self.product_id,
            serial_number: self.serial_number.deep_view(),
            manufacturer: self.manufacturer.deep_view(),
            product: self.product.deep_view(),
        }
    }
}

/// The attachment of a port as the operating system reports it.
#[derive(Clone, Debug)]
pub enum Attachment {
    Usb(UsbIdentity),
    Pci,
    Bluetooth,
    Unknown,
}

/// Mathematical model of an [`Attachment`].
pub enum AttachmentView {
    Usb(UsbIdentityView),
    Pci,
    Bluetooth,
    Unknown,
}

impl View for Attachment {
    type V = AttachmentView;

    open spec fn view(&self) -> AttachmentView {
        match self {
            Attachment::Usb(identity) => AttachmentView::Usb(identity@),
            Attachment::Pci => AttachmentView::Pci,
            Attachment::Bluetooth => AttachmentView::Bluetooth,
            Attachment::Unknown => AttachmentView::Unknown,
        }
    }
}

/// One serial port as the operating system reports it.
#[derive(Clone, Debug)]
pub struct ReportedPort {
    pub name: String,
    pub attachment: Attachment,
}

/// Mathematical model of a [`ReportedPort`].
pub struct ReportedPortView {
    pub name: Seq<char>,
    pub attachment: AttachmentView,
}

impl View for ReportedPort {
    type V = ReportedPortView;

    open spec fn view(&self) -> ReportedPortView {
        ReportedPortView { name: self.name@, attachment: self.attachment@ }
    }
}

impl DeepView for ReportedPort {
    type V = ReportedPortView;

    open spec fn deep_view(&self) -> ReportedPortView {
        self.view()
    }
}

/// Mathematical model of a [`PortDescriptor`].
pub struct PortDescriptorView {
    pub name: Seq<char>,
    pub bus_type: BusType,
    pub manufacturer: Option<Seq<char>>,
    pub product: Option<Seq<char>>,
    pub serial_number: Option<Seq<char>>,
    pub vendor_id: Option<u16>,
    pub product_id: Option<u16>,
}

impl PortDescriptorView {
    /// A USB port carries both numeric ids; a port on any other bus carries
    /// neither of them and none of the USB strings.
    pub open spec fn well_formed(self) -> bool {
        if self.bus_type is Usb {
            self.vendor_id is Some && self.product_id is Some
        } else {
            &&& self.vendor_id is None
            &&& self.product_id is None
            &&& self.manufacturer is None
            &&& self.product is None
            &&& self.serial_number is None
        }
    }
}

/// The description of a reported port.
pub open spec fn description_of(port: ReportedPortView) -> PortDescriptorView {
    match port.attachment {
        AttachmentView::Usb(identity) => PortDescriptorView {
            name: port.name,
            bus_type: BusType::Usb,
            manufacturer: identity.manufacturer,
            product: identity.product,
            serial_number: identity.serial_number,
            vendor_id: Some(identity.vendor_id),
            product_id: Some(identity.product_id),
        },
        AttachmentView::Bluetooth => bare_description(port.name, BusType::Bluetooth),
        AttachmentView::Pci => bare_description(port.name, BusType::Pci),
        AttachmentView::Unknown => bare_description(port.name, BusType::Unknown),
    }
}

/// The description of a port of which only the name and the bus are known.
pub open spec fn bare_description(name: Seq<char>, bus_type: BusType) -> PortDescriptorView {
    PortDescriptorView {
        name,
        bus_type,
        manufacturer: None,
        product: None,
        serial_number: None,
        vendor_id: None,
        product_id: None,
    }
}

/// Whatever the operating system reports, its description is well formed:
/// both numeric ids are present on a USB port and absent on any other.
pub proof fn lemma_description_well_formed(port: ReportedPortView)
    ensures
        description_of(port).well_formed(),
        description_of(port).name == port.name,
        description_of(port).bus_type is Usb <==> port.attachment is Usb,
        description_of(port).bus_type is Usb <==> description_of(port).vendor_id is Some,
        description_of(port).bus_type is Usb <==> description_of(port).product_id is Some,
{
}

/// The flat description of one serial port. Every value of this type is well
/// formed in the sense of [`PortDescriptorView::well_formed`].
#[derive(Debug)]
pub struct PortDescriptor {
    name: String,
    bus_type: BusType,
    manufacturer: Option<String>,
    product: Option<String>,
    serial_number: Option<String>,
    vendor_id: Option<u16>,
    product_id: Option<u16>,
}

impl View for PortDescriptor {
    type V = PortDescriptorView;

    closed spec fn view(&self) -> PortDescriptorView {
        PortDescriptorView {
            name: self.name@,
            bus_type: self.bus_type,
            manufacturer: self.manufacturer.deep_view(),
            product: self.product.deep_view(),
            serial_number: self.serial_number.deep_view(),
            vendor_id: self.vendor_id,
            product_id: self.product_id,
        }
    }
}

impl DeepView for PortDescriptor {
    type V = PortDescriptorView;

    open spec fn deep_view(&self) -> PortDescriptorView {
        self.view()
    }
}

/// Copies a string that may be missing.
fn copy_text(text: &Option<String>) -> (copy: Option<String>)
    ensures
        copy.deep_view() == text.deep_view(),
{
    match text {
        Some(present) => Some(present.clone()),
        None => None,
    }
}

impl Clone for PortDescriptor {
    fn clone(&self) -> (copy: PortDescriptor)
        ensures
            copy@ == self@,
    {
        proof {
            use_type_invariant(self);
        }
        PortDescriptor {
            name: self.name.clone(),
            bus_type: self.bus_type,
            manufacturer: copy_text(&self.manufacturer),
            product: copy_text(&self.product),
            serial_number: copy_text(&self.serial_number),
            vendor_id: self.vendor_id,
            product_id: self.product_id,
        }
    }
}

impl PortDescriptor {
    #[verifier::type_invariant]
    spec fn holds_ids_iff_usb(self) -> bool {
        self@.well_formed()
    }

    /// Describes a port that the operating system reported.
    pub fn describe(port: ReportedPort) -> (descriptor: PortDescriptor)
        ensures
            descriptor@ == description_of(port@),
    {
        match port.attachment {
            Attachment::Usb(identity) => PortDescriptor {
                name: port.name,
                bus_type: BusType::Usb,
                manufacturer: identity.manufacturer,
                product: identity.product,
                serial_number: identity.serial_number,
                vendor_id: Some(identity.vendor_id),
                product_id: Some(identity.product_id),
            },
            Attachment::Bluetooth => PortDescriptor::bare(port.name, BusType::Bluetooth),
            Attachment::Pci => PortDescriptor::bare(port.name, BusType::Pci),
            Attachment::Unknown => PortDescriptor::bare(port.name, BusType::Unknown),
        }
    }

    fn bare(name: String, bus_type: BusType) -> (descriptor: PortDescriptor)
        requires
            bus_type !is Usb,
        ensures
            descriptor@ == bare_description(name@, bus_type),
    {
        PortDescriptor {
            name,
            bus_type,
            manufacturer: None,
            product: None,
            serial_number: None,
            vendor_id: None,
            product_id: None,
        }
    }

    /// The name by which the port is opened.
    pub fn name(&self) -> (name: &String)
        ensures
            name@ == self@.name,
    {
        &self.name
    }

    /// The bus through which the port is attached.
    pub fn bus_type(&self) -> (bus_type: BusType)
        ensures
            bus_type == self@.bus_type,
    {
        self.bus_type
    }

    /// The manufacturer that the USB driver reports, if any.
    pub fn manufacturer(&self) -> (manufacturer: &Option<String>)
        ensures
            manufacturer.deep_view() == self@.manufacturer,
            manufacturer is Some ==> self@.bus_type is Usb,
    {
        proof {
            use_type_invariant(self);
        }
        &self.manufacturer
    }

    /// The product name that the USB driver reports, if any.
    pub fn product(&self) -> (product: &Option<String>)
        ensures
            product.deep_view() == self@.product,
            product is Some ==> self@.bus_type is Usb,
    {
        proof {
            use_type_invariant(self);
        }
        &self.product
    }

    /// The serial number that the USB driver reports, if any.
    pub fn serial_number(&self) -> (serial_number: &Option<String>)
        ensures
            serial_number.deep_view() == self@.serial_number,
            serial_number is Some ==> self@.bus_type is Usb,
    {
        proof {
            use_type_invariant(self);
        }
        &self.serial_number
    }

    /// The USB vendor id: present on a USB port, absent on any other.
    pub fn vendor_id(&self) -> (vendor_id: Option<u16>)
        ensures
            vendor_id == self@.vendor_id,
            vendor_id is Some <==> self@.bus_type is Usb,
    {
        proof {
            use_type_invariant(self);
        }
        self.vendor_id
    }

    /// The USB product id: present on a USB port, absent on any other.
    pub fn product_id(&self) -> (product_id: Option<u16>)
        ensures
            product_id == self@.product_id,
            product_id is Some <==> self@.bus_type is Usb,
    {
        proof {
            use_type_invariant(self);
        }
        self.product_id
    }
}

} // verus!
