//! The build script of a VBF file: thirteen entries read from the `VBF1`
//! section of a JSON document.
use crate::json_source::{json_lookup, json_member, JsonScalar, JsonScalarView};
use vstd::prelude::*;

verus! {

/// The value of one configuration entry: a piece of text or an on/off switch.
#[derive(Debug)]
pub enum ValueT {
    Literal(String),
    Toggle(bool),
}

/// Mathematical model of a [`ValueT`].
pub enum ValueView {
    Literal(Seq<char>),
    Toggle(bool),
}

impl View for ValueT {
    type V = ValueView;

    open spec fn view(&self) -> ValueView {
        match self {
            ValueT::Literal(s) => ValueView::Literal(s@),
            ValueT::Toggle(b) => ValueView::Toggle(*b),
        }
    }
}

impl ValueT {
    /// The text held by a `Literal`; `None` for a `Toggle`.
    pub fn literal(&self) -> (r: Option<String>)
        ensures
            match self@ {
                ValueView::Literal(s) => r is Some && r->0@ == s,
                ValueView::Toggle(_) => r is None,
            },
    {
        match self {
            ValueT::Literal(c) => Some(c.clone()),
            _ => None,
        }
    }

    /// The switch held by a `Toggle`; `None` for a `Literal`.
    pub fn toggle(&self) -> (r: Option<bool>)
        ensures
            match self@ {
                ValueView::Toggle(b) => r == Some(b),
                ValueView::Literal(_) => r is None,
            },
    {
        match self {
            ValueT::Toggle(c) => Some(*c),
            _ => None,
        }
    }
}


/// Mathematical model of an [`Item`].
pub struct ItemView {
    pub description: Seq<char>,
    pub value: ValueView,
}

/// One entry of the build script: a fixed description and the configured value.
#[derive(Debug)]
pub struct Item {
    pub description: String,
    pub value: ValueT,
}

impl View for Item {
    type V = ItemView;

    open spec fn view(&self) -> ItemView {
        ItemView { description: self.description@, value: self.value@ }
    }
}

/// The entries of the build script, in the order in which they are read.
#[derive(Debug, Clone, Copy, PartialEq, Eq)]
pub enum ConfigKey {
    SourceFile,
    TargetFile,
    VbfVersion,
    SwType,
    SwPartNum,
    EcuAddr,
    SwVersion,
    ImageOffset,
    CreateVerificationBlock,
    VerificationBlockStartAddr,
    Compressed,
    Sort,
    Group,
}

/// How many entries a build script has.
pub open spec fn num_keys() -> int {
    13
}

/// The `i`-th entry in reading order (`0 <= i < 13`).
pub open spec fn key_at(i: int) -> ConfigKey {
    if i == 0 {
        ConfigKey::SourceFile
    } else if i == 1 {
        ConfigKey::TargetFile
    } else if i == 2 {
        ConfigKey::VbfVersion
    } else if i == 3 {
        ConfigKey::SwType
    } else if i == 4 {
        ConfigKey::SwPartNum
    } else if i == 5 {
        ConfigKey::EcuAddr
    } else if i == 6 {
        ConfigKey::SwVersion
    } else if i == 7 {
        ConfigKey::ImageOffset
    } else if i == 8 {
        ConfigKey::CreateVerificationBlock
    } else if i == 9 {
        ConfigKey::VerificationBlockStartAddr
    } else if i == 10 {
        ConfigKey::Compressed
    } else if i == 11 {
        ConfigKey::Sort
    } else {
        ConfigKey::Group
    }
}

/// The JSON member name of an entry.
pub open spec fn json_key(k: ConfigKey) -> Seq<char> {
    match k {
        ConfigKey::SourceFile => "SourceFile"@,
        ConfigKey::TargetFile => "TargetFile"@,
        ConfigKey::VbfVersion => "VBFVersion"@,
        ConfigKey::SwType => "SwType"@,
        ConfigKey::SwPartNum => "SwPartNum"@,
        ConfigKey::EcuAddr => "ECUaddr"@,
        ConfigKey::SwVersion => "SwVersion"@,
        ConfigKey::ImageOffset => "ImageOffset"@,
        ConfigKey::CreateVerificationBlock => "CreateVerificationBlock"@,
        ConfigKey::VerificationBlockStartAddr => "VerificationBlockStartAddr"@,
        ConfigKey::Compressed => "Compressed"@,
        ConfigKey::Sort => "Sort"@,
        ConfigKey::Group => "Group"@,
    }
}

/// The fixed description stored with an entry.
pub open spec fn key_description(k: ConfigKey) -> Seq<char> {
    match k {
        ConfigKey::SourceFile => "blahblah"@,
        ConfigKey::TargetFile => "blahblah"@,
        ConfigKey::VbfVersion => "blahblah"@,
        ConfigKey::SwType => "software part type: Executable"@,
        ConfigKey::SwPartNum => "software part number:"@,
        ConfigKey::EcuAddr => "ECU Address:"@,
        ConfigKey::SwVersion => "Software Version:"@,
        ConfigKey::ImageOffset => "image offset"@,
        ConfigKey::CreateVerificationBlock => "If enable VBT"@,
        ConfigKey::VerificationBlockStartAddr => "Start address of the VBT"@,
        ConfigKey::Compressed => "If enable compress fea:"@,
        ConfigKey::Sort => "Sorted"@,
        ConfigKey::Group => "Grouped"@,
    }
}

/// Entries that hold text; the others are switches.
pub open spec fn is_text_key(k: ConfigKey) -> bool {
    !(k == ConfigKey::CreateVerificationBlock || k == ConfigKey::Compressed || k
        == ConfigKey::Sort || k == ConfigKey::Group)
}

impl ConfigKey {
    /// The JSON member name of this entry.
    pub fn json_name(&self) -> (r: &'static str)
        ensures
            r@ == json_key(*self),
    {
        match self {
            ConfigKey::SourceFile => "SourceFile",
            ConfigKey::TargetFile => "TargetFile",
            ConfigKey::VbfVersion => "VBFVersion",
            ConfigKey::SwType => "SwType",
            ConfigKey::SwPartNum => "SwPartNum",
            ConfigKey::EcuAddr => "ECUaddr",
            ConfigKey::SwVersion => "SwVersion",
            ConfigKey::ImageOffset => "ImageOffset",
            ConfigKey::CreateVerificationBlock => "CreateVerificationBlock",
            ConfigKey::VerificationBlockStartAddr => "VerificationBlockStartAddr",
            ConfigKey::Compressed => "Compressed",
            ConfigKey::Sort => "Sort",
            ConfigKey::Group => "Group",
        }
    }

    /// The fixed description stored with this entry.
    pub fn description(&self) -> (r: &'static str)
        ensures
            r@ == key_description(*self),
    {
        match self {
            ConfigKey::SourceFile => "blahblah",
            ConfigKey::TargetFile => "blahblah",
            ConfigKey::VbfVersion => "blahblah",
            ConfigKey::SwType => "software part type: Executable",
            ConfigKey::SwPartNum => "software part number:",
            ConfigKey::EcuAddr => "ECU Address:",
            ConfigKey::SwVersion => "Software Version:",
            ConfigKey::ImageOffset => "image offset",
            ConfigKey::CreateVerificationBlock => "If enable VBT",
            ConfigKey::VerificationBlockStartAddr => "Start address of the VBT",
            ConfigKey::Compressed => "If enable compress fea:",
            ConfigKey::Sort => "Sorted",
            ConfigKey::Group => "Grouped",
        }
    }

    /// Whether this entry holds text (otherwise it is a switch).
    pub fn is_text(&self) -> (r: bool)
        ensures
            r == is_text_key(*self),
    {
        !matches!(self, ConfigKey::CreateVerificationBlock | ConfigKey::Compressed | ConfigKey::Sort | ConfigKey::Group)
    }
}

/// Why a build script could not be read.
#[derive(Debug, Clone, Copy, PartialEq, Eq)]
pub enum ConfigError {
    /// The document is not valid JSON.
    Malformed,
    /// The entry is missing from `VBF1`, or holds the wrong kind of value.
    Missing(ConfigKey),
}

/// The JSON section that holds the build script.
pub open spec fn section() -> Seq<char> {
    "VBF1"@
}

/// What the document `text` holds for entry `k`.
pub open spec fn config_entry(text: Seq<char>, k: ConfigKey) -> JsonScalarView {
    json_member(text, section(), json_key(k))
}

/// Why entry `k` of `text` is unusable, if it is.
pub open spec fn entry_error(text: Seq<char>, k: ConfigKey) -> Option<ConfigError> {
    match config_entry(text, k) {
        JsonScalarView::Malformed => Some(ConfigError::Malformed),
        JsonScalarView::Text(_) => if is_text_key(k) {
            None
        } else {
            Some(ConfigError::Missing(k))
        },
        JsonScalarView::Flag(_) => if is_text_key(k) {
            Some(ConfigError::Missing(k))
        } else {
            None
        },
        JsonScalarView::Other => Some(ConfigError::Missing(k)),
    }
}

/// The value stored for entry `k` of `text` when it is usable.
pub open spec fn entry_value(text: Seq<char>, k: ConfigKey) -> ValueView {
    match config_entry(text, k) {
        JsonScalarView::Text(s) => ValueView::Literal(s),
        JsonScalarView::Flag(b) => ValueView::Toggle(b),
        _ => ValueView::Literal(Seq::empty()),
    }
}

/// The item stored for entry `k` of `text` when it is usable.
pub open spec fn entry_item(text: Seq<char>, k: ConfigKey) -> ItemView {
    ItemView { description: key_description(k), value: entry_value(text, k) }
}

/// The first unusable entry of `text` from the `i`-th on, in reading order.
pub open spec fn first_error_from(text: Seq<char>, i: int) -> Option<ConfigError>
    decreases num_keys() - i,
{
    if i >= num_keys() || i < 0 {
        None
    } else {
        match entry_error(text, key_at(i)) {
            Some(e) => Some(e),
            None => first_error_from(text, i + 1),
        }
    }
}

/// Reads entry `k` of the build script `text`.
pub fn fetch_item(text: &str, k: ConfigKey) -> (r: Result<Item, ConfigError>)
    ensures
        match r {
            Ok(item) => entry_error(text@, k) is None && item@ == entry_item(text@, k),
            Err(e) => entry_error(text@, k) == Some(e),
        },
{
    let found = json_lookup(text, "VBF1", k.json_name());
    proof {
        assert(section() == "VBF1"@);
    }
    let value = match found {
        JsonScalar::Malformed => {
            return Err(ConfigError::Malformed);
        },
        JsonScalar::Text(s) => {
            if !k.is_text() {
                return Err(ConfigError::Missing(k));
            }
            ValueT::Literal(s)
        },
        JsonScalar::Flag(b) => {
            if k.is_text() {
                return Err(ConfigError::Missing(k));
            }
            ValueT::Toggle(b)
        },
        JsonScalar::Other => {
            return Err(ConfigError::Missing(k));
        },
    };
    Ok(Item { description: String::from_str(k.description()), value })
}


/// Mathematical model of a [`ScriptsT`].
pub struct ScriptsView {
    pub source_file: ItemView,
    pub target_file: ItemView,
    pub vbf_version: ItemView,
    pub sw_type: ItemView,
    pub sw_part_nmu: ItemView,
    pub ecu_addr: ItemView,
    pub sw_version: ItemView,
    pub image_offset: ItemView,
    pub create_vbt: ItemView,
    pub vbt_addr: ItemView,
    pub compressed: ItemView,
    pub sort: ItemView,
    pub group: ItemView,
}

impl ScriptsView {
    /// The item stored for entry `k`.
    pub open spec fn item(self, k: ConfigKey) -> ItemView {
        match k {
            ConfigKey::SourceFile => self.source_file,
            ConfigKey::TargetFile => self.target_file,
            ConfigKey::VbfVersion => self.vbf_version,
            ConfigKey::SwType => self.sw_type,
            ConfigKey::SwPartNum => self.sw_part_nmu,
            ConfigKey::EcuAddr => self.ecu_addr,
            ConfigKey::SwVersion => self.sw_version,
            ConfigKey::ImageOffset => self.image_offset,
            ConfigKey::CreateVerificationBlock => self.create_vbt,
            ConfigKey::VerificationBlockStartAddr => self.vbt_addr,
            ConfigKey::Compressed => self.compressed,
            ConfigKey::Sort => self.sort,
            ConfigKey::Group => self.group,
        }
    }

    /// Text entries hold text and switches hold switches.
    pub open spec fn well_typed(self) -> bool {
        forall|k: ConfigKey|
            if is_text_key(k) {
                #[trigger] self.item(k).value is Literal
            } else {
                self.item(k).value is Toggle
            }
    }

    /// The text of entry `k` (empty for a switch).
    pub open spec fn text(self, k: ConfigKey) -> Seq<char> {
        match self.item(k).value {
            ValueView::Literal(s) => s,
            ValueView::Toggle(_) => Seq::empty(),
        }
    }

    /// The switch of entry `k` (`false` for a text entry).
    pub open spec fn flag(self, k: ConfigKey) -> bool {
        match self.item(k).value {
            ValueView::Toggle(b) => b,
            ValueView::Literal(_) => false,
        }
    }
}

/// The build script of a VBF file.
#[derive(Debug)]
pub struct ScriptsT {
    source_file: Item,  // input binary image
    target_file: Item,  // output VBF file
    vbf_version: Item,  // VBF format version
    sw_type: Item,  // software type
    sw_part_nmu: Item,  // software part number
    ecu_addr: Item,  // ECU address
    sw_version: Item,  // software version
    image_offset: Item,  // image offset
    create_vbt: Item,  // whether a verification block table is built
    vbt_addr: Item,  // address of the verification block table
    compressed: Item,  // whether the image is compressed
    sort: Item,  // blocks sorted
    group: Item,  // blocks grouped
}

impl View for ScriptsT {
    type V = ScriptsView;

    closed spec fn view(&self) -> ScriptsView {
        ScriptsView {
            source_file: self.source_file@,
            target_file: self.target_file@,
            vbf_version: self.vbf_version@,
            sw_type: self.sw_type@,
            sw_part_nmu: self.sw_part_nmu@,
            ecu_addr: self.ecu_addr@,
            sw_version: self.sw_version@,
            image_offset: self.image_offset@,
            create_vbt: self.create_vbt@,
            vbt_addr: self.vbt_addr@,
            compressed: self.compressed@,
            sort: self.sort@,
            group: self.group@,
        }
    }
}

impl ScriptsT {
    #[verifier::type_invariant]
    spec fn inv(self) -> bool {
        self@.well_typed()
    }

    /// Reads the build script from the `VBF1` section of the JSON document
    /// `text`. Entries are read in [`key_at`] order and the first unusable one
    /// is reported.
    pub fn from_json(text: &str) -> (r: Result<ScriptsT, ConfigError>)
        ensures
            r is Ok <==> first_error_from(text@, 0) is None,
            r matches Err(e) ==> first_error_from(text@, 0) == Some(e),
            r matches Ok(s) ==> forall|k: ConfigKey| #[trigger] s@.item(k) == entry_item(text@, k),
    {
        proof {
            reveal_with_fuel(first_error_from, 14);
        }
        let source_file = fetch_item(text, ConfigKey::SourceFile)?;
        let target_file = fetch_item(text, ConfigKey::TargetFile)?;
        let vbf_version = fetch_item(text, ConfigKey::VbfVersion)?;
        let sw_type = fetch_item(text, ConfigKey::SwType)?;
        let sw_part_nmu = fetch_item(text, ConfigKey::SwPartNum)?;
        let ecu_addr = fetch_item(text, ConfigKey::EcuAddr)?;
        let sw_version = fetch_item(text, ConfigKey::SwVersion)?;
        let image_offset = fetch_item(text, ConfigKey::ImageOffset)?;
        let create_vbt = fetch_item(text, ConfigKey::CreateVerificationBlock)?;
        let vbt_addr = fetch_item(text, ConfigKey::VerificationBlockStartAddr)?;
        let compressed = fetch_item(text, ConfigKey::Compressed)?;
        let sort = fetch_item(text, ConfigKey::Sort)?;
        let group = fetch_item(text, ConfigKey::Group)?;
        let s = ScriptsT {
            source_file,
            target_file,
            vbf_version,
            sw_type,
            sw_part_nmu,
            ecu_addr,
            sw_version,
            image_offset,
            create_vbt,
            vbt_addr,
            compressed,
            sort,
            group,
        };
        assert(forall|k: ConfigKey| #[trigger] s@.item(k) == entry_item(text@, k));
        Ok(s)
    }

    /// The text of entry `k`, which must be a text entry.
    pub fn literal_of(&self, k: ConfigKey) -> (r: String)
        requires
            is_text_key(k),
        ensures
            r@ == self@.text(k),
    {
        proof {
            use_type_invariant(self);
            assert(self@.item(k).value is Literal);
        }
        let v = match k {
            ConfigKey::SourceFile => self.source_file.value.literal(),
            ConfigKey::TargetFile => self.target_file.value.literal(),
            ConfigKey::VbfVersion => self.vbf_version.value.literal(),
            ConfigKey::SwType => self.sw_type.value.literal(),
            ConfigKey::SwPartNum => self.sw_part_nmu.value.literal(),
            ConfigKey::EcuAddr => self.ecu_addr.value.literal(),
            ConfigKey::SwVersion => self.sw_version.value.literal(),
            ConfigKey::ImageOffset => self.image_offset.value.literal(),
            ConfigKey::CreateVerificationBlock => self.create_vbt.value.literal(),
            ConfigKey::VerificationBlockStartAddr => self.vbt_addr.value.literal(),
            ConfigKey::Compressed => self.compressed.value.literal(),
            ConfigKey::Sort => self.sort.value.literal(),
            ConfigKey::Group => self.group.value.literal(),
        };
        v.unwrap()
    }

    /// The switch of entry `k`, which must be a switch.
    pub fn toggle_of(&self, k: ConfigKey) -> (r: bool)
        requires
            !is_text_key(k),
        ensures
            r == self@.flag(k),
    {
        proof {
            use_type_invariant(self);
            assert(self@.item(k).value is Toggle);
        }
        let v = match k {
            ConfigKey::SourceFile => self.source_file.value.toggle(),
            ConfigKey::TargetFile => self.target_file.value.toggle(),
            ConfigKey::VbfVersion => self.vbf_version.value.toggle(),
            ConfigKey::SwType => self.sw_type.value.toggle(),
            ConfigKey::SwPartNum => self.sw_part_nmu.value.toggle(),
            ConfigKey::EcuAddr => self.ecu_addr.value.toggle(),
            ConfigKey::SwVersion => self.sw_version.value.toggle(),
            ConfigKey::ImageOffset => self.image_offset.value.toggle(),
            ConfigKey::CreateVerificationBlock => self.create_vbt.value.toggle(),
            ConfigKey::VerificationBlockStartAddr => self.vbt_addr.value.toggle(),
            ConfigKey::Compressed => self.compressed.value.toggle(),
            ConfigKey::Sort => self.sort.value.toggle(),
            ConfigKey::Group => self.group.value.toggle(),
        };
        v.unwrap()
    }
}

} // verus!
