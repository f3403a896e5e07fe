//! Picking a GPU and deciding how to open it.
//!
//! The device has to be the same GPU the buffers come from: importing a DMA-BUF
//! into a device on another card either fails or copies over PCIe. So the
//! physical device is selected by matching its DRM node against the node the
//! rest of the compositor is using.
use vstd::prelude::*;

use crate::error::Error;
use crate::format::{ModifierProperties, VkFormat};
use crate::text::{append_decimal, decimal};

verus! {

/// A Vulkan API version.
#[derive(Debug, Clone, Copy, PartialEq, Eq, Structural)]
pub struct Version {
    pub variant: u32,
    pub major: u32,
    pub minor: u32,
    pub patch: u32,
}

impl Version {
    /// Whether this version comes before another: the variant decides first,
    /// the patch last.
    pub open spec fn precedes(self, other: Version) -> bool {
        ||| self.variant < other.variant
        ||| self.variant == other.variant && self.major < other.major
        ||| self.variant == other.variant && self.major == other.major && self.minor < other.minor
        ||| self.variant == other.variant && self.major == other.major && self.minor == other.minor
            && self.patch < other.patch
    }

    /// The version as it reads in a message.
    pub open spec fn text(self) -> Seq<char> {
        "Version { variant: "@ + decimal(self.variant as int) + ", major: "@ + decimal(
            self.major as int,
        ) + ", minor: "@ + decimal(self.minor as int) + ", patch: "@ + decimal(self.patch as int)
            + " }"@
    }

    /// Whether this version comes before another.
    pub fn is_before(self, other: Version) -> (before: bool)
        ensures
            before == self.precedes(other),
    {
        if self.variant != other.variant {
            self.variant < other.variant
        } else if self.major != other.major {
            self.major < other.major
        } else if self.minor != other.minor {
            self.minor < other.minor
        } else {
            self.patch < other.patch
        }
    }

    /// Add the version, as it reads in a message, at the end of `text`.
    pub fn append_to(self, text: &mut String)
        ensures
            final(text)@ == old(text)@ + self.text(),
    {
        let ghost before = text@;
        text.append("Version { variant: ");
        append_decimal(text, self.variant as u64);
        text.append(", major: ");
        append_decimal(text, self.major as u64);
        text.append(", minor: ");
        append_decimal(text, self.minor as u64);
        text.append(", patch: ");
        append_decimal(text, self.patch as u64);
        text.append(" }");
        assert(text@ =~= before + self.text());
    }
}

/// The minimum Vulkan version: the first in which timeline semaphores and
/// descriptor indexing are core rather than extensions.
pub open spec fn floor() -> Version {
    Version { variant: 0, major: 1, minor: 2, patch: 0 }
}

/// The minimum Vulkan version.
pub fn minimum_version() -> (version: Version)
    ensures
        version == floor(),
{
    Version { variant: 0, major: 1, minor: 2, patch: 0 }
}

/// The kind of a DRM node.
#[derive(Debug, Clone, Copy, PartialEq, Eq, Structural)]
pub enum NodeType {
    Primary,
    Control,
    Render,
}

/// A DRM device node, by the device number behind it.
#[derive(Debug, Clone, Copy, PartialEq, Eq, Structural)]
pub struct DrmNode {
    pub dev: u64,
    pub ty: NodeType,
}

/// A device extension this renderer knows.
#[derive(Debug, Clone, Copy, PartialEq, Eq, Structural)]
pub enum Extension {
    KhrExternalMemoryFd,
    ExtExternalMemoryDmaBuf,
    /// Makes a Vulkan image describable in the same terms as a DMA-BUF.
    ExtImageDrmFormatModifier,
    KhrImageFormatList,
    ExtQueueFamilyForeign,
    KhrExternalSemaphoreFd,
    /// Rendering without render pass and framebuffer objects.
    KhrDynamicRendering,
    /// Descriptors pushed straight into the command buffer.
    KhrPushDescriptor,
    /// Lets a fence come back out as a sync_file fd.
    KhrTimelineSemaphore,
}

impl Extension {
    /// The name Vulkan knows the extension by.
    pub open spec fn text(self) -> Seq<char> {
        match self {
            Extension::KhrExternalMemoryFd => "VK_KHR_external_memory_fd"@,
            Extension::ExtExternalMemoryDmaBuf => "VK_EXT_external_memory_dma_buf"@,
            Extension::ExtImageDrmFormatModifier => "VK_EXT_image_drm_format_modifier"@,
            Extension::KhrImageFormatList => "VK_KHR_image_format_list"@,
            Extension::ExtQueueFamilyForeign => "VK_EXT_queue_family_foreign"@,
            Extension::KhrExternalSemaphoreFd => "VK_KHR_external_semaphore_fd"@,
            Extension::KhrDynamicRendering => "VK_KHR_dynamic_rendering"@,
            Extension::KhrPushDescriptor => "VK_KHR_push_descriptor"@,
            Extension::KhrTimelineSemaphore => "VK_KHR_timeline_semaphore"@,
        }
    }

    /// The name Vulkan knows the extension by.
    pub fn name(self) -> (name: &'static str)
        ensures
            name@ == self.text(),
    {
        match self {
            Extension::KhrExternalMemoryFd => "VK_KHR_external_memory_fd",
            Extension::ExtExternalMemoryDmaBuf => "VK_EXT_external_memory_dma_buf",
            Extension::ExtImageDrmFormatModifier => "VK_EXT_image_drm_format_modifier",
            Extension::KhrImageFormatList => "VK_KHR_image_format_list",
            Extension::ExtQueueFamilyForeign => "VK_EXT_queue_family_foreign",
            Extension::KhrExternalSemaphoreFd => "VK_KHR_external_semaphore_fd",
            Extension::KhrDynamicRendering => "VK_KHR_dynamic_rendering",
            Extension::KhrPushDescriptor => "VK_KHR_push_descriptor",
            Extension::KhrTimelineSemaphore => "VK_KHR_timeline_semaphore",
        }
    }
}

/// Extensions the renderer cannot work without.
pub open spec fn required() -> Seq<Extension> {
    seq![
        Extension::KhrExternalMemoryFd,
        Extension::ExtExternalMemoryDmaBuf,
        Extension::ExtImageDrmFormatModifier,
        Extension::KhrImageFormatList,
        Extension::ExtQueueFamilyForeign,
        Extension::KhrExternalSemaphoreFd,
        Extension::KhrDynamicRendering,
        Extension::KhrPushDescriptor,
    ]
}

/// Extensions that are wanted, but without which the renderer degrades rather
/// than fails.
pub open spec fn optional() -> Seq<Extension> {
    seq![Extension::KhrTimelineSemaphore]
}

/// Extensions the renderer cannot work without.
///
/// All of these exist to move images between APIs and processes without a copy,
/// or to render without objects that would have to be rebuilt for every frame.
pub fn required_extensions() -> (extensions: Vec<Extension>)
    ensures
        extensions@ == required(),
{
    vec![
        Extension::KhrExternalMemoryFd,
        Extension::ExtExternalMemoryDmaBuf,
        Extension::ExtImageDrmFormatModifier,
        Extension::KhrImageFormatList,
        Extension::ExtQueueFamilyForeign,
        Extension::KhrExternalSemaphoreFd,
        Extension::KhrDynamicRendering,
        Extension::KhrPushDescriptor,
    ]
}

/// Extensions that are wanted, but without which the renderer degrades rather
/// than fails.
pub fn optional_extensions() -> (extensions: Vec<Extension>)
    ensures
        extensions@ == optional(),
{
    vec![Extension::KhrTimelineSemaphore]
}

/// The names of some extensions, separated by commas.
pub open spec fn listed(extensions: Seq<Extension>) -> Seq<char>
    decreases extensions.len(),
{
    if extensions.len() == 0 {
        Seq::empty()
    } else if extensions.len() == 1 {
        extensions[0].text()
    } else {
        listed(extensions.drop_last()) + ", "@ + extensions.last().text()
    }
}

/// A property of a memory type.
#[derive(Debug, Clone, Copy, PartialEq, Eq, Structural)]
pub enum MemoryProperty {
    DeviceLocal,
    HostVisible,
    HostCoherent,
}

impl MemoryProperty {
    /// The bit Vulkan gives the property.
    pub open spec fn bit(self) -> u32 {
        match self {
            MemoryProperty::DeviceLocal => 0x1,
            MemoryProperty::HostVisible => 0x2,
            MemoryProperty::HostCoherent => 0x4,
        }
    }
}

/// Whether a set of memory property bits holds a property.
pub open spec fn has_property(flags: u32, property: MemoryProperty) -> bool {
    flags & property.bit() == property.bit()
}

/// Whether a set of memory property bits holds a property.
///
/// Calls `ash::vk::MemoryPropertyFlags::contains`, which says whether every bit
/// of its argument is set; the bits themselves are the constants of that type.
#[verifier::external_body]
pub(crate) fn memory_has(flags: u32, property: MemoryProperty) -> (has: bool)
    ensures
        has == has_property(flags, property),
{
    let wanted = match property {
        MemoryProperty::DeviceLocal => ash::vk::MemoryPropertyFlags::DEVICE_LOCAL,
        MemoryProperty::HostVisible => ash::vk::MemoryPropertyFlags::HOST_VISIBLE,
        MemoryProperty::HostCoherent => ash::vk::MemoryPropertyFlags::HOST_COHERENT,
    };
    ash::vk::MemoryPropertyFlags::from_raw(flags).contains(wanted)
}

/// Whether a queue family can draw.
pub open spec fn graphics(flags: u32) -> bool {
    flags & 1 == 1
}

/// Whether a queue family can draw.
///
/// Calls `ash::vk::QueueFlags::contains` with that type's `GRAPHICS` bit.
#[verifier::external_body]
fn can_draw(flags: u32) -> (can: bool)
    ensures
        can == graphics(flags),
{
    ash::vk::QueueFlags::from_raw(flags).contains(ash::vk::QueueFlags::GRAPHICS)
}

/// The modifiers a device reports for one format.
#[derive(Debug, Clone)]
pub struct FormatModifiers {
    pub format: VkFormat,
    pub properties: Vec<ModifierProperties>,
}

/// What the driver reports about one GPU.
#[derive(Debug, Clone)]
pub struct PhysicalDevice {
    pub name: String,
    pub api_version: Version,
    /// Those of the extensions this renderer knows that the device has.
    pub extensions: Vec<Extension>,
    /// The capability bits of each queue family.
    pub queue_families: Vec<u32>,
    /// The property bits of each memory type.
    pub memory_types: Vec<u32>,
    /// The modifiers of every format the driver knows. A format that is not
    /// listed has none.
    pub formats: Vec<FormatModifiers>,
    /// The DRM nodes the device exposes, if any.
    pub render_node: Option<DrmNode>,
    pub primary_node: Option<DrmNode>,
    /// Whether a sampler can assemble multi-planar images into colour.
    pub ycbcr: bool,
}

/// The place of a format in a list, or where the list ends.
pub open spec fn format_index(formats: Seq<FormatModifiers>, format: VkFormat) -> int
    decreases formats.len(),
{
    if formats.len() == 0 || formats[0].format == format {
        0
    } else {
        1 + format_index(formats.skip(1), format)
    }
}

/// The first queue family that can draw, or how many families there are.
pub open spec fn graphics_index(families: Seq<u32>) -> int
    decreases families.len(),
{
    if families.len() == 0 || graphics(families[0]) {
        0
    } else {
        1 + graphics_index(families.skip(1))
    }
}

impl PhysicalDevice {
    /// Vulkan describes at most this many memory types.
    pub open spec fn is_valid(self) -> bool {
        self.memory_types@.len() <= 32
    }

    /// What the device reports about a format, one entry for each modifier.
    pub open spec fn properties(self, format: VkFormat) -> Seq<ModifierProperties> {
        let index = format_index(self.formats@, format);
        if index < self.formats@.len() {
            self.formats@[index].properties@
        } else {
            Seq::empty()
        }
    }

    /// Whether the device is the one behind a node. A device may expose a
    /// primary node, a render node, or both.
    pub open spec fn exposes(self, node: DrmNode) -> bool {
        self.render_node == Some(node) || self.primary_node == Some(node)
    }

    /// Those required extensions the device does not have.
    pub open spec fn missing(self) -> Seq<Extension> {
        required().filter(|e: Extension| !self.extensions@.contains(e))
    }

    /// The extensions to open the device with.
    pub open spec fn enabled(self) -> Seq<Extension> {
        required() + optional().filter(|e: Extension| self.extensions@.contains(e))
    }

    /// Why the device cannot be used, or `None` where it can.
    pub open spec fn objection(self) -> Option<Seq<char>> {
        if self.api_version.precedes(floor()) {
            Some(
                self.name@ + " reports Vulkan "@ + self.api_version.text() + ", need at least "@
                    + floor().text(),
            )
        } else if self.missing().len() > 0 {
            Some(self.name@ + " is missing "@ + listed(self.missing()))
        } else if graphics_index(self.queue_families@) == self.queue_families@.len() {
            Some(self.name@ + " has no graphics queue"@)
        } else {
            None
        }
    }

    /// The place of a format among those the device reports.
    pub fn find_format(&self, format: VkFormat) -> (found: Option<usize>)
        ensures
            match found {
                Some(index) => index == format_index(self.formats@, format) && index
                    < self.formats@.len(),
                None => format_index(self.formats@, format) == self.formats@.len(),
            },
    {
        proof {
            assert(self.formats@.skip(0) =~= self.formats@);
        }
        for i in 0..self.formats.len()
            invariant
                format_index(self.formats@, format) == i + format_index(
                    self.formats@.skip(i as int),
                    format,
                ),
        {
            proof {
                assert(self.formats@.skip(i as int).skip(1) =~= self.formats@.skip(i + 1));
            }
            if self.formats[i].format == format {
                return Some(i);
            }
        }
        None
    }

    /// Whether the device has an extension.
    pub fn has_device_extension(&self, extension: Extension) -> (has: bool)
        ensures
            has == self.extensions@.contains(extension),
    {
        for i in 0..self.extensions.len()
            invariant
                forall|j: int| 0 <= j < i ==> self.extensions@[j] != extension,
        {
            if self.extensions[i] == extension {
                return true;
            }
        }
        false
    }

    /// Whether the device is the one behind a node.
    pub fn is_behind(&self, node: DrmNode) -> (behind: bool)
        ensures
            behind == self.exposes(node),
    {
        let render = match self.render_node {
            Some(n) => n == node,
            None => false,
        };
        let primary = match self.primary_node {
            Some(n) => n == node,
            None => false,
        };
        render || primary
    }

    /// The first queue family that can draw.
    ///
    /// One graphics queue is enough: this renderer composites, and a second
    /// queue would only add ownership transfers between families.
    fn graphics_family(&self) -> (found: Option<u32>)
        ensures
            match found {
                Some(index) => graphics_index(self.queue_families@) < self.queue_families@.len()
                    && index == graphics_index(self.queue_families@) as u32,
                None => graphics_index(self.queue_families@) == self.queue_families@.len(),
            },
    {
        proof {
            assert(self.queue_families@.skip(0) =~= self.queue_families@);
        }
        for i in 0..self.queue_families.len()
            invariant
                graphics_index(self.queue_families@) == i + graphics_index(
                    self.queue_families@.skip(i as int),
                ),
        {
            proof {
                assert(self.queue_families@.skip(i as int).skip(1) =~= self.queue_families@.skip(
                    i + 1,
                ));
            }
            if can_draw(self.queue_families[i]) {
                return Some(#[verifier::truncate] (i as u32));
            }
        }
        None
    }

    /// Those extensions of a list the device has, or those it has not.
    fn select(&self, list: &Vec<Extension>, present: bool) -> (selected: Vec<Extension>)
        ensures
            selected@ == list@.filter(|e: Extension| self.extensions@.contains(e) == present),
    {
        let ghost test = |e: Extension| self.extensions@.contains(e) == present;
        let mut selected: Vec<Extension> = Vec::new();
        proof {
            reveal(Seq::filter);
        }
        for i in 0..list.len()
            invariant
                test == (|e: Extension| self.extensions@.contains(e) == present),
                selected@ == list@.take(i as int).filter(test),
        {
            proof {
                reveal(Seq::filter);
                assert(list@.take(i + 1).drop_last() =~= list@.take(i as int));
            }
            if self.has_device_extension(list[i]) == present {
                selected.push(list[i]);
            }
        }
        assert(list@.take(list@.len() as int) =~= list@);
        selected
    }
}

/// Add the names of some extensions at the end of `text`.
fn append_listed(text: &mut String, extensions: &Vec<Extension>)
    ensures
        final(text)@ == old(text)@ + listed(extensions@),
{
    let ghost before = text@;
    for i in 0..extensions.len()
        invariant
            text@ == before + listed(extensions@.take(i as int)),
    {
        let ghost so_far = text@;
        proof {
            assert(extensions@.take(i + 1).drop_last() =~= extensions@.take(i as int));
        }
        if i > 0 {
            text.append(", ");
        }
        text.append(extensions[i].name());
        assert(text@ =~= before + listed(extensions@.take(i + 1)));
    }
    assert(extensions@.take(extensions@.len() as int) =~= extensions@);
}

/// An open Vulkan device on a specific GPU.
#[derive(Debug, Clone)]
pub struct Device {
    pub physical: PhysicalDevice,
    pub queue_family: u32,
    /// The extensions it is opened with.
    pub enabled: Vec<Extension>,
    pub has_timeline_semaphores: bool,
}

/// The place of the device behind a node in a list, or where the list ends.
pub open spec fn node_index(devices: Seq<PhysicalDevice>, node: DrmNode) -> int
    decreases devices.len(),
{
    if devices.len() == 0 || devices[0].exposes(node) {
        0
    } else {
        1 + node_index(devices.skip(1), node)
    }
}

/// What is said where there is nothing to draw with.
pub open spec fn no_device_text() -> Seq<char> {
    "no Vulkan device at all. The renderer is Vulkan and falls back \nto nothing, so a driver has to be installed: mesa's vulkan-radeon \nor vulkan-intel on real hardware, vulkan-virtio in a virtual \nmachine with 3D acceleration, or vulkan-swrast to render in \nsoftware."@
}

/// Which device to open.
#[derive(Debug, Clone, Copy, PartialEq, Eq, Structural)]
pub struct Choice {
    pub index: usize,
    /// No device exposes the node. A software renderer is the usual reason: it
    /// exposes no node at all. It can still draw, but every frame is drawn
    /// without the display's own GPU.
    pub fallback: bool,
}

/// The choice for a node: the first device behind it, or the first of all where
/// none is.
pub open spec fn chosen(devices: Seq<PhysicalDevice>, node: DrmNode) -> (int, bool) {
    let index = node_index(devices, node);
    if index < devices.len() {
        (index, false)
    } else {
        (0, true)
    }
}

/// The device behind the node is opened wherever there is one, and the first of
/// them where there are several; only where there is none is another taken in
/// its place, and then that is said.
pub proof fn the_device_behind_the_node_is_chosen(devices: Seq<PhysicalDevice>, node: DrmNode)
    requires
        devices.len() > 0,
    ensures
        ({
            let (index, fallback) = chosen(devices, node);
            &&& 0 <= index < devices.len()
            &&& fallback <==> forall|j: int|
                0 <= j < devices.len() ==> !(#[trigger] devices[j]).exposes(node)
            &&& !fallback ==> devices[index].exposes(node) && forall|j: int|
                0 <= j < index ==> !(#[trigger] devices[j]).exposes(node)
        }),
{
    lemma_node_index(devices, node);
}

proof fn lemma_node_index(devices: Seq<PhysicalDevice>, node: DrmNode)
    ensures
        0 <= node_index(devices, node) <= devices.len(),
        forall|j: int|
            0 <= j < node_index(devices, node) ==> !(#[trigger] devices[j]).exposes(node),
        node_index(devices, node) < devices.len() ==> devices[node_index(devices, node)].exposes(
            node,
        ),
    decreases devices.len(),
{
    if devices.len() > 0 && !devices[0].exposes(node) {
        let rest = devices.skip(1);
        lemma_node_index(rest, node);
        assert forall|j: int| 0 <= j < node_index(devices, node) implies !(
        #[trigger] devices[j]).exposes(node) by {
            if j > 0 {
                assert(devices[j] == rest[j - 1]);
            }
        }
    }
}

/// A device that is opened is recent enough, has every extension the renderer
/// cannot work without, enables only extensions it has, and draws on a queue
/// that can.
pub proof fn an_open_device_meets_every_requirement(device: Device, physical: PhysicalDevice)
    requires
        device.opens(physical),
        physical.queue_families@.len() <= u32::MAX,
    ensures
        !physical.api_version.precedes(floor()),
        forall|e: Extension| #[trigger]
            required().contains(e) ==> physical.extensions@.contains(e) && device.enabled@.contains(
                e,
            ),
        forall|e: Extension| #[trigger]
            device.enabled@.contains(e) ==> physical.extensions@.contains(e),
        device.queue_family < physical.queue_families@.len(),
        graphics(physical.queue_families@[device.queue_family as int]),
{
    let absent = |e: Extension| !physical.extensions@.contains(e);
    let present = |e: Extension| physical.extensions@.contains(e);
    assert forall|e: Extension| #[trigger] required().contains(e) implies physical.extensions@
        .contains(e) && device.enabled@.contains(e) by {
        if absent(e) {
            required().lemma_filter_contains_rev(absent, e);
            assert(false);
        }
        let i = choose|i: int| 0 <= i < required().len() && required()[i] == e;
        assert(device.enabled@[i] == e);
    }
    assert forall|e: Extension| #[trigger] device.enabled@.contains(e) implies physical.extensions@
        .contains(e) by {
        let extra = optional().filter(present);
        let i = choose|i: int| 0 <= i < device.enabled@.len() && device.enabled@[i] == e;
        if i < required().len() {
            assert(required().contains(required()[i]));
        } else {
            assert(extra.contains(extra[i - required().len()]));
            optional().lemma_filter_pred(present, i - required().len());
        }
    }
    lemma_graphics_index(physical.queue_families@);
}

proof fn lemma_graphics_index(families: Seq<u32>)
    ensures
        0 <= graphics_index(families) <= families.len(),
        graphics_index(families) < families.len() ==> graphics(families[graphics_index(families)]),
    decreases families.len(),
{
    if families.len() > 0 && !graphics(families[0]) {
        lemma_graphics_index(families.skip(1));
    }
}

impl Device {
    /// Which of the devices to open for a node.
    pub fn pick(devices: &Vec<PhysicalDevice>, node: DrmNode) -> (choice: Result<Choice, Error>)
        ensures
            match choice {
                Ok(choice) => devices@.len() > 0 && (choice.index as int, choice.fallback)
                    == chosen(devices@, node) && choice.index < devices@.len(),
                Err(error) => devices@.len() == 0 && error is Other && error.text()
                    == no_device_text(),
            },
    {
        if devices.len() == 0 {
            return Err(
                Error::Other(
                    "no Vulkan device at all. The renderer is Vulkan and falls back \nto nothing, so a driver has to be installed: mesa's vulkan-radeon \nor vulkan-intel on real hardware, vulkan-virtio in a virtual \nmachine with 3D acceleration, or vulkan-swrast to render in \nsoftware.".to_owned(),
                ),
            );
        }
        proof {
            assert(devices@.skip(0) =~= devices@);
        }
        for i in 0..devices.len()
            invariant
                node_index(devices@, node) == i + node_index(devices@.skip(i as int), node),
        {
            proof {
                assert(devices@.skip(i as int).skip(1) =~= devices@.skip(i + 1));
            }
            if devices[i].is_behind(node) {
                return Ok(Choice { index: i, fallback: false });
            }
        }
        Ok(Choice { index: 0, fallback: true })
    }

    /// Open the GPU exposing `node`, of those there are.
    ///
    /// `node` is normally the render node the compositor already has open.
    pub fn for_node(devices: Vec<PhysicalDevice>, node: DrmNode) -> (device: Result<Device, Error>)
        ensures
            match device {
                Ok(device) => devices@.len() > 0 && device.opens(
                    devices@[chosen(devices@, node).0],
                ),
                Err(error) => error is Other && if devices@.len() == 0 {
                    error.text() == no_device_text()
                } else {
                    devices@[chosen(devices@, node).0].objection() == Some(error.text())
                },
            },
    {
        let choice = match Device::pick(&devices, node) {
            Ok(choice) => choice,
            Err(error) => {
                return Err(error);
            },
        };
        let mut devices = devices;
        let physical = devices.remove(choice.index);
        Device::open(physical)
    }

    /// Whether this is how a physical device is opened: it is fit for use, its
    /// first graphics queue is taken, and every extension that is both wanted
    /// and present is enabled.
    pub open spec fn opens(self, physical: PhysicalDevice) -> bool {
        &&& physical.objection() is None
        &&& self.physical == physical
        &&& self.queue_family == graphics_index(physical.queue_families@) as u32
        &&& self.enabled@ == physical.enabled()
        &&& self.has_timeline_semaphores
    }

    /// Decide how to open a specific physical device, or why it cannot be used.
    pub fn open(physical: PhysicalDevice) -> (device: Result<Device, Error>)
        ensures
            match device {
                Ok(device) => device.opens(physical),
                Err(error) => error is Other && physical.objection() == Some(error.text()),
            },
    {
        if physical.api_version.is_before(minimum_version()) {
            let mut text = physical.name.clone();
            text.append(" reports Vulkan ");
            physical.api_version.append_to(&mut text);
            text.append(", need at least ");
            minimum_version().append_to(&mut text);
            return Err(Error::Other(text));
        }
        let wanted = required_extensions();
        let missing = physical.select(&wanted, false);
        assert(missing@ =~= physical.missing()) by {
            assert((|e: Extension| physical.extensions@.contains(e) == false) =~= (
            |e: Extension| !physical.extensions@.contains(e)));
        }
        if missing.len() > 0 {
            let mut text = physical.name.clone();
            text.append(" is missing ");
            append_listed(&mut text, &missing);
            return Err(Error::Other(text));
        }
        let queue_family = match physical.graphics_family() {
            Some(index) => index,
            None => {
                let mut text = physical.name.clone();
                text.append(" has no graphics queue");
                return Err(Error::Other(text));
            },
        };
        let mut enabled = wanted;
        let mut extra = physical.select(&optional_extensions(), true);
        assert(extra@ =~= optional().filter(|e: Extension| physical.extensions@.contains(e))) by {
            assert((|e: Extension| physical.extensions@.contains(e) == true) =~= (|e: Extension|
                physical.extensions@.contains(e)));
        }
        let has_timeline_semaphores = extra.len() > 0 || !physical.api_version.is_before(
            minimum_version(),
        );
        enabled.append(&mut extra);
        Ok(Device { physical, queue_family, enabled, has_timeline_semaphores })
    }

    /// Whether a memory type may be used and a test lets it through.
    pub open spec fn passes<F: Fn(u32) -> bool>(self, requirements: u32, wanted: F, i: int) -> bool {
        allows(requirements, i) && call_ensures(wanted, (self.physical.memory_types@[i],), true)
    }

    /// Whether a memory type may not be used or a test holds it back.
    pub open spec fn fails<F: Fn(u32) -> bool>(self, requirements: u32, wanted: F, i: int) -> bool {
        allows(requirements, i) ==> call_ensures(
            wanted,
            (self.physical.memory_types@[i],),
            false,
        )
    }

    /// The index of the first memory type satisfying `requirements` whose
    /// property flags pass `wanted`.
    ///
    /// Used for memory this renderer allocates itself, where the constraint is
    /// a property rather than compatibility with an imported fd.
    pub fn memory_type_with<F: Fn(u32) -> bool>(&self, requirements: u32, wanted: F) -> (index:
        Option<u32>)
        requires
            self.physical.is_valid(),
            forall|flags: u32| call_requires(wanted, (flags,)),
        ensures
            match index {
                Some(i) => {
                    &&& i < self.physical.memory_types@.len()
                    &&& self.passes(requirements, wanted, i as int)
                    &&& forall|j: int| 0 <= j < i ==> #[trigger] self.fails(requirements, wanted, j)
                },
                None => forall|j: int|
                    0 <= j < self.physical.memory_types@.len() ==> #[trigger] self.fails(
                        requirements,
                        wanted,
                        j,
                    ),
            },
    {
        let types = &self.physical.memory_types;
        for i in 0..types.len()
            invariant
                types@ == self.physical.memory_types@,
                types@.len() <= 32,
                forall|flags: u32| call_requires(wanted, (flags,)),
                forall|j: int| 0 <= j < i ==> #[trigger] self.fails(requirements, wanted, j),
        {
            if requirements & (1u32 << (i as u32)) != 0 && wanted(types[i]) {
                return Some(i as u32);
            }
        }
        None
    }

    /// Whether `index` is the first memory type in a set whose property flags
    /// satisfy a test. `None` means there is none.
    pub open spec fn is_first(
        self,
        requirements: u32,
        test: spec_fn(u32) -> bool,
        index: Option<u32>,
    ) -> bool {
        let types = self.physical.memory_types@;
        match index {
            Some(i) => {
                &&& i < types.len()
                &&& allows(requirements, i as int) && test(types[i as int])
                &&& forall|j: int| 0 <= j < i && #[trigger] allows(requirements, j) ==> !test(types[j])
            },
            None => forall|j: int|
                0 <= j < types.len() && #[trigger] allows(requirements, j) ==> !test(types[j]),
        }
    }

    /// The first memory type in a set that is on the device itself.
    pub fn device_local_type(&self, requirements: u32) -> (index: Option<u32>)
        requires
            self.physical.is_valid(),
        ensures
            self.is_first(requirements, device_local(), index),
    {
        let wanted = |flags: u32| -> (is: bool)
            ensures
                is == has_property(flags, MemoryProperty::DeviceLocal),
            { memory_has(flags, MemoryProperty::DeviceLocal) };
        let index = self.memory_type_with(requirements, wanted);
        proof {
            self.lemma_first(requirements, wanted, device_local(), index);
        }
        index
    }

    /// The first memory type in a set that the CPU sees, without having to
    /// flush what it wrote.
    pub fn host_coherent_type(&self, requirements: u32) -> (index: Option<u32>)
        requires
            self.physical.is_valid(),
        ensures
            self.is_first(requirements, host_coherent(), index),
    {
        let wanted = |flags: u32| -> (is: bool)
            ensures
                is == (has_property(flags, MemoryProperty::HostVisible) && has_property(
                    flags,
                    MemoryProperty::HostCoherent,
                )),
            {
                memory_has(flags, MemoryProperty::HostVisible) && memory_has(
                    flags,
                    MemoryProperty::HostCoherent,
                )
            };
        let index = self.memory_type_with(requirements, wanted);
        proof {
            self.lemma_first(requirements, wanted, host_coherent(), index);
        }
        index
    }

    proof fn lemma_first<F: Fn(u32) -> bool>(
        self,
        requirements: u32,
        wanted: F,
        test: spec_fn(u32) -> bool,
        index: Option<u32>,
    )
        requires
            forall|flags: u32, is: bool| #[trigger]
                call_ensures(wanted, (flags,), is) ==> is == test(flags),
            match index {
                Some(i) => {
                    &&& i < self.physical.memory_types@.len()
                    &&& self.passes(requirements, wanted, i as int)
                    &&& forall|j: int| 0 <= j < i ==> #[trigger] self.fails(requirements, wanted, j)
                },
                None => forall|j: int|
                    0 <= j < self.physical.memory_types@.len() ==> #[trigger] self.fails(
                        requirements,
                        wanted,
                        j,
                    ),
            },
        ensures
            self.is_first(requirements, test, index),
    {
        let types = self.physical.memory_types@;
        let end = match index {
            Some(i) => i as int,
            None => types.len() as int,
        };
        assert forall|j: int| 0 <= j < end && #[trigger] allows(requirements, j) implies !test(
            types[j],
        ) by {
            assert(self.fails(requirements, wanted, j));
        }
    }

    /// Whether a memory type is on the device itself.
    pub open spec fn is_local(self, i: int) -> bool {
        has_property(self.physical.memory_types@[i], MemoryProperty::DeviceLocal)
    }

    /// Whether `index` is the memory type to use, of those in both sets: a
    /// device-local one comes before one that is not, and a later one before
    /// an earlier. `None` means there is none.
    pub open spec fn backs(self, requirements: u32, allowed: u32, index: Option<u32>) -> bool {
        match index {
            Some(i) => {
                &&& i < self.physical.memory_types@.len()
                &&& allows(requirements & allowed, i as int)
                &&& forall|j: int|
                    0 <= j < self.physical.memory_types@.len() && #[trigger] allows(
                        requirements & allowed,
                        j,
                    ) && j != i ==> (if self.is_local(j) == self.is_local(i as int) {
                        j < i
                    } else {
                        self.is_local(i as int)
                    })
            },
            None => forall|j: int|
                0 <= j < self.physical.memory_types@.len() ==> !#[trigger] allows(
                    requirements & allowed,
                    j,
                ),
        }
    }

    /// The index of a memory type satisfying `requirements` and allowed by
    /// `allowed`, preferring device-local memory: the last of the local ones,
    /// or the last of all where none is local.
    ///
    /// `allowed` is which memory types the driver says an imported fd is
    /// compatible with; intersecting that with the image's own requirements is
    /// what stops an import binding memory the GPU cannot read.
    pub fn memory_type(&self, requirements: u32, allowed: u32) -> (index: Option<u32>)
        requires
            self.physical.is_valid(),
        ensures
            self.backs(requirements, allowed, index),
    {
        let types = &self.physical.memory_types;
        let candidates: u32 = requirements & allowed;
        let mut best: Option<u32> = None;
        for i in 0..types.len()
            invariant
                types@ == self.physical.memory_types@,
                types@.len() <= 32,
                candidates == requirements & allowed,
                match best {
                    Some(b) => {
                        &&& b < i
                        &&& allows(candidates, b as int)
                        &&& forall|j: int|
                            0 <= j < i && #[trigger] allows(candidates, j) && j != b ==> (if
                                self.is_local(j) == self.is_local(b as int) {
                                j < b
                            } else {
                                self.is_local(b as int)
                            })
                    },
                    None => forall|j: int| 0 <= j < i ==> !#[trigger] allows(candidates, j),
                },
        {
            if candidates & (1u32 << (i as u32)) != 0 {
                assert(allows(candidates, i as int));
                let replace = match best {
                    Some(b) => memory_has(types[i], MemoryProperty::DeviceLocal) || !memory_has(
                        types[b as usize],
                        MemoryProperty::DeviceLocal,
                    ),
                    None => true,
                };
                if replace {
                    best = Some(i as u32);
                }
            }
        }
        best
    }

    /// Whether multi-planar YUV can be sampled.
    pub fn has_ycbcr(&self) -> (has: bool)
        ensures
            has == self.physical.ycbcr,
    {
        self.physical.ycbcr
    }

    /// The GPU this device is on.
    pub fn physical(&self) -> (physical: &PhysicalDevice)
        ensures
            *physical == self.physical,
    {
        &self.physical
    }

    /// The queue family everything is submitted to.
    pub fn queue_family(&self) -> (family: u32)
        ensures
            family == self.queue_family,
    {
        self.queue_family
    }

    /// Whether a fence can come back out of a submission.
    pub fn supports_timeline_semaphores(&self) -> (supports: bool)
        ensures
            supports == self.has_timeline_semaphores,
    {
        self.has_timeline_semaphores
    }

    /// What the driver calls the GPU.
    pub fn name(&self) -> (name: &str)
        ensures
            name@ == self.physical.name@,
    {
        self.physical.name.as_str()
    }
}

/// Memory on the device itself.
pub open spec fn device_local() -> spec_fn(u32) -> bool {
    |flags: u32| has_property(flags, MemoryProperty::DeviceLocal)
}

/// Memory the CPU sees, without having to flush what it wrote.
pub open spec fn host_coherent() -> spec_fn(u32) -> bool {
    |flags: u32|
        has_property(flags, MemoryProperty::HostVisible) && has_property(
            flags,
            MemoryProperty::HostCoherent,
        )
}

/// Whether a set of memory type bits holds a memory type.
pub open spec fn allows(bits: u32, i: int) -> bool {
    bits & (1u32 << (i as u32)) != 0
}

/// What a device reports of a format is what its first entry for the format
/// says, and nothing where it has none.
pub proof fn the_first_report_of_a_format_counts(
    physical: PhysicalDevice,
    format: VkFormat,
    index: int,
)
    requires
        0 <= index <= physical.formats@.len(),
        forall|i: int| 0 <= i < index ==> (#[trigger] physical.formats@[i]).format != format,
        index < physical.formats@.len() ==> physical.formats@[index].format == format,
    ensures
        physical.properties(format) == (if index < physical.formats@.len() {
            physical.formats@[index].properties@
        } else {
            Seq::empty()
        }),
{
    lemma_format_index(physical.formats@, format, index);
}

proof fn lemma_format_index(formats: Seq<FormatModifiers>, format: VkFormat, index: int)
    requires
        0 <= index <= formats.len(),
        forall|i: int| 0 <= i < index ==> (#[trigger] formats[i]).format != format,
        index < formats.len() ==> formats[index].format == format,
    ensures
        format_index(formats, format) == index,
    decreases formats.len(),
{
    if index > 0 {
        assert(formats[0].format != format);
        let rest = formats.skip(1);
        assert forall|i: int| 0 <= i < index - 1 implies (#[trigger] rest[i]).format != format by {
            assert(rest[i] == formats[i + 1]);
        }
        if index < formats.len() {
            assert(rest[index - 1] == formats[index]);
        }
        lemma_format_index(rest, format, index - 1);
    }
}

/// Versions are in order: of any two that differ, one comes before the other and
/// not the other way about, and what comes before something comes before all
/// that it comes before.
pub proof fn versions_are_in_order(a: Version, b: Version, c: Version)
    ensures
        !a.precedes(a),
        a != b ==> (a.precedes(b) <==> !b.precedes(a)),
        a.precedes(b) && b.precedes(c) ==> a.precedes(c),
{
}

/// A device is recent enough from Vulkan 1.2 on: a higher major version is newer
/// whatever its minor is, and a patch makes no difference.
pub proof fn a_device_is_recent_enough_from_its_version_on(version: Version)
    requires
        version.variant == 0,
    ensures
        !version.precedes(floor()) <==> version.major > 1 || version.major == 1 && version.minor
            >= 2,
{
}

/// A device that is recent enough, has every extension the renderer cannot work
/// without, and has a queue that can draw is opened; any other is refused.
pub proof fn a_fit_device_is_opened(physical: PhysicalDevice)
    ensures
        physical.objection() is None <==> {
            &&& !physical.api_version.precedes(floor())
            &&& forall|e: Extension| #[trigger]
                required().contains(e) ==> physical.extensions@.contains(e)
            &&& exists|i: int|
                0 <= i < physical.queue_families@.len() && #[trigger] physical.queue_families@[i]
                    & 1 == 1
        },
{
    let absent = |e: Extension| !physical.extensions@.contains(e);
    let missing = required().filter(absent);
    if missing.len() > 0 {
        let e = missing[0];
        required().lemma_filter_pred(absent, 0);
        assert(missing.contains(e));
        required().lemma_filter_contains_rev(absent, e);
        assert(required().contains(e) && !physical.extensions@.contains(e));
    } else {
        assert forall|e: Extension| #[trigger] required().contains(e) implies physical.extensions@
            .contains(e) by {
            if absent(e) {
                let i = choose|i: int| 0 <= i < required().len() && required()[i] == e;
                required().lemma_filter_contains(absent, i);
            }
        }
    }
    lemma_graphics_index(physical.queue_families@);
    lemma_no_graphics(physical.queue_families@);
}

proof fn lemma_no_graphics(families: Seq<u32>)
    ensures
        forall|i: int|
            0 <= i < graphics_index(families) ==> !graphics(#[trigger] families[i]),
    decreases families.len(),
{
    if families.len() > 0 && !graphics(families[0]) {
        let rest = families.skip(1);
        lemma_no_graphics(rest);
        lemma_graphics_index(rest);
        assert forall|i: int| 0 <= i < graphics_index(families) implies !graphics(
            #[trigger] families[i],
        ) by {
            if i > 0 {
                assert(rest[i - 1] == families[i]);
            }
        }
    }
}

/// Everything is submitted to the first queue that can draw.
pub proof fn the_first_queue_that_can_draw_is_taken(
    device: Device,
    physical: PhysicalDevice,
    i: int,
)
    requires
        device.opens(physical),
        physical.queue_families@.len() <= u32::MAX,
        0 <= i < device.queue_family,
    ensures
        physical.queue_families@[i] & 1 != 1,
{
    lemma_graphics_index(physical.queue_families@);
    lemma_no_graphics(physical.queue_families@);
    assert(!graphics(physical.queue_families@[i]));
}

/// A device is behind a node where the node is its render node or its primary
/// node, and nowhere else.
pub proof fn a_device_is_behind_its_own_nodes(physical: PhysicalDevice, node: DrmNode)
    ensures
        physical.exposes(node) <==> {
            ||| physical.render_node matches Some(own) && own == node
            ||| physical.primary_node matches Some(own) && own == node
        },
{
}

/// Of what a device has, everything the renderer wants is enabled: what it cannot
/// work without, and what it can as well where it is there. Each is listed once.
pub proof fn every_wanted_extension_is_enabled(physical: PhysicalDevice, e: Extension)
    ensures
        required().contains(e) <==> !(e is KhrTimelineSemaphore),
        optional().contains(e) <==> e is KhrTimelineSemaphore,
        required().no_duplicates(),
        e is KhrTimelineSemaphore ==> (physical.enabled().contains(e)
            <==> physical.extensions@.contains(e)),
        !(e is KhrTimelineSemaphore) ==> physical.enabled().contains(e),
{
    let all = required();
    assert(all[0] is KhrExternalMemoryFd && all[1] is ExtExternalMemoryDmaBuf);
    assert(all[2] is ExtImageDrmFormatModifier && all[3] is KhrImageFormatList);
    assert(all[4] is ExtQueueFamilyForeign && all[5] is KhrExternalSemaphoreFd);
    assert(all[6] is KhrDynamicRendering && all[7] is KhrPushDescriptor);
    let more = optional();
    assert(more[0] is KhrTimelineSemaphore);
    let present = |e: Extension| physical.extensions@.contains(e);
    let extra = more.filter(present);
    let enabled = physical.enabled();
    if e is KhrTimelineSemaphore {
        if present(e) {
            more.lemma_filter_contains(present, 0);
            let k = choose|k: int| 0 <= k < extra.len() && extra[k] == more[0];
            assert(enabled[all.len() + k] == e);
        }
        if enabled.contains(e) {
            let k = choose|k: int| 0 <= k < enabled.len() && enabled[k] == e;
            assert(k >= all.len());
            more.lemma_filter_pred(present, k - all.len());
        }
    } else {
        let k = choose|k: int| 0 <= k < all.len() && all[k] == e;
        assert(enabled[k] == e);
    }
}

/// Memory for an import is of a type that both the image and the descriptor
/// allow, and is on the device itself wherever one of those is. There is none
/// exactly where they agree on none.
pub proof fn imported_memory_suits_both_sides(
    device: Device,
    requirements: u32,
    allowed: u32,
    index: Option<u32>,
    other: int,
)
    requires
        device.physical.is_valid(),
        device.backs(requirements, allowed, index),
        0 <= other < device.physical.memory_types@.len(),
        requirements & (1u32 << (other as u32)) != 0,
        allowed & (1u32 << (other as u32)) != 0,
    ensures
        index matches Some(i) && {
            &&& i < device.physical.memory_types@.len()
            &&& requirements & (1u32 << i) != 0
            &&& allowed & (1u32 << i) != 0
            &&& device.physical.memory_types@[other] & 1 == 1
                ==> device.physical.memory_types@[i as int] & 1 == 1
        },
{
    let bit = other as u32;
    assert((requirements & allowed) & (1u32 << bit) != 0) by (bit_vector)
        requires
            bit < 32,
            requirements & (1u32 << bit) != 0,
            allowed & (1u32 << bit) != 0,
    ;
    assert(allows(requirements & allowed, other));
    if let Some(i) = index {
        assert(requirements & (1u32 << i) != 0 && allowed & (1u32 << i) != 0) by (bit_vector)
            requires
                (requirements & allowed) & (1u32 << i) != 0,
        ;
    }
}

/// Memory the renderer allocates itself is the first the driver allows that has
/// what is wanted of it: on the device, or seen by the CPU without a flush. There
/// is none exactly where no type has.
pub proof fn allocated_memory_has_what_is_wanted(
    device: Device,
    requirements: u32,
    local: Option<u32>,
    host: Option<u32>,
    j: int,
)
    requires
        device.is_first(requirements, device_local(), local),
        device.is_first(requirements, host_coherent(), host),
        0 <= j < device.physical.memory_types@.len(),
        requirements & (1u32 << (j as u32)) != 0,
    ensures
        ({
            let types = device.physical.memory_types@;
            &&& local matches Some(i) ==> i < types.len() && requirements & (1u32 << i) != 0
                && types[i as int] & 1 == 1 && (j < i ==> types[j] & 1 != 1)
            &&& local is None ==> types[j] & 1 != 1
            &&& host matches Some(i) ==> i < types.len() && requirements & (1u32 << i) != 0
                && types[i as int] & 2 == 2 && types[i as int] & 4 == 4 && (j < i ==> types[j] & 2
                != 2 || types[j] & 4 != 4)
            &&& host is None ==> types[j] & 2 != 2 || types[j] & 4 != 4
        }),
{
    assert(allows(requirements, j));
}

} // verus!
