//! Where the clients are placed: positions, client configurations and what can
//! be wrong with them.

use crate::text::{all_ascii, ascii_lower, lowercase, same_text};
use schengen::server::Position as Placement;
use vstd::prelude::*;
use vstd::string::*;

verus! {

/// The side of a screen, as the schengen protocol crate names it.
#[verifier::external_type_specification]
pub struct ExPlacement(Placement);

/// Position of a client relative to another client or the server.
#[derive(Debug, Clone, Copy, PartialEq, Eq, Hash, Structural)]
pub enum Position {
    /// Client is to the left of the reference.
    LeftOf,
    /// Client is to the right of the reference.
    RightOf,
    /// Client is above the reference.
    TopOf,
    /// Client is below the reference.
    BottomOf,
}

/// The position that a lowercase word names.
pub open spec fn position_of_word(word: Seq<char>) -> Option<Position> {
    if word == "leftof"@ {
        Some(Position::LeftOf)
    } else if word == "rightof"@ {
        Some(Position::RightOf)
    } else if word == "topof"@ {
        Some(Position::TopOf)
    } else if word == "bottomof"@ {
        Some(Position::BottomOf)
    } else {
        None
    }
}

/// A text that names no position.
#[derive(Debug, Clone, PartialEq, Eq)]
pub struct InvalidPosition {
    /// The text, as it was given.
    pub text: String,
}

impl Position {
    /// Parse a position string: "leftof", "rightof", "topof" or "bottomof", in
    /// any mix of upper and lower case.
    pub fn from_str(s: &str) -> (parsed: Result<Position, InvalidPosition>)
        ensures
            match parsed {
                Ok(position) => position_of_word(lowercase(s@)) == Some(position),
                Err(error) => position_of_word(lowercase(s@)) is None && error.text@ == s@,
            },
    {
        let lower = s.to_lowercase();
        match Position::from_word(lower.as_str()) {
            Some(position) => Ok(position),
            None => Err(InvalidPosition { text: s.to_owned() }),
        }
    }

    /// The position that a lowercase word names.
    pub fn from_word(word: &str) -> (position: Option<Position>)
        ensures
            position == position_of_word(word@),
    {
        if same_text(word, "leftof") {
            Some(Position::LeftOf)
        } else if same_text(word, "rightof") {
            Some(Position::RightOf)
        } else if same_text(word, "topof") {
            Some(Position::TopOf)
        } else if same_text(word, "bottomof") {
            Some(Position::BottomOf)
        } else {
            None
        }
    }

    /// The side of the reference's screen that the client is on.
    pub open spec fn placement(self) -> Placement {
        match self {
            Position::LeftOf => Placement::Left,
            Position::RightOf => Placement::Right,
            Position::TopOf => Placement::Above,
            Position::BottomOf => Placement::Below,
        }
    }

    /// Convert to the position type of the schengen protocol crate.
    pub fn to_schengen(self) -> (placement: Placement)
        ensures
            placement == self.placement(),
    {
        match self {
            Position::LeftOf => Placement::Left,
            Position::RightOf => Placement::Right,
            Position::TopOf => Placement::Above,
            Position::BottomOf => Placement::Below,
        }
    }

    /// The position's name in messages.
    pub open spec fn label(self) -> Seq<char> {
        match self {
            Position::LeftOf => "LeftOf"@,
            Position::RightOf => "RightOf"@,
            Position::TopOf => "TopOf"@,
            Position::BottomOf => "BottomOf"@,
        }
    }

    fn label_text(self) -> (text: &'static str)
        ensures
            text@ == self.label(),
    {
        match self {
            Position::LeftOf => "LeftOf",
            Position::RightOf => "RightOf",
            Position::TopOf => "TopOf",
            Position::BottomOf => "BottomOf",
        }
    }
}

/// The case of ASCII letters does not matter: texts that differ in nothing else
/// name the same position, or none.
pub proof fn law_position_ignores_case(a: Seq<char>, b: Seq<char>)
    requires
        all_ascii(a),
        all_ascii(b),
        a.len() == b.len(),
        forall|i: int| 0 <= i < a.len() ==> ascii_lower(#[trigger] a[i]) == ascii_lower(b[i]),
    ensures
        position_of_word(lowercase(a)) == position_of_word(lowercase(b)),
{
    assert(a.map_values(|c: char| ascii_lower(c)) =~= b.map_values(|c: char| ascii_lower(c)));
}

/// Two positions are the same side exactly when they are the same position.
pub proof fn law_placement_is_one_to_one(a: Position, b: Position)
    ensures
        a.placement() == b.placement() <==> a == b,
{
}

/// Configuration for a client.
#[derive(Debug, Clone, PartialEq, Eq)]
pub struct ClientConfig {
    /// The client's name.
    pub name: String,
    /// The client's position relative to the reference.
    pub position: Position,
    /// The reference point: "self" for the server, or another client's name.
    pub reference: String,
}

/// What a client configuration says.
pub ghost struct ConfigView {
    pub name: Seq<char>,
    pub position: Position,
    pub reference: Seq<char>,
}

impl View for ClientConfig {
    type V = ConfigView;

    open spec fn view(&self) -> ConfigView {
        ConfigView { name: self.name@, position: self.position, reference: self.reference@ }
    }
}

impl ConfigView {
    /// Whether the client is placed directly beside the server.
    pub open spec fn beside_server(self) -> bool {
        self.reference == "self"@
    }
}

impl ClientConfig {
    /// Whether the client is placed directly beside the server.
    pub fn is_beside_server(&self) -> (beside: bool)
        ensures
            beside == self@.beside_server(),
    {
        same_text(self.reference.as_str(), "self")
    }
}

/// Whether one of the configurations is for a client of that name.
pub open spec fn has_name(configs: Seq<ConfigView>, name: Seq<char>) -> bool {
    exists|i: int| 0 <= i < configs.len() && (#[trigger] configs[i]).name == name
}

/// Whether no two configurations are for clients of the same name.
pub open spec fn names_differ(configs: Seq<ConfigView>) -> bool {
    forall|i: int, j: int|
        0 <= i < j < configs.len() ==> (#[trigger] configs[i]).name != (#[trigger] configs[j]).name
}

/// Whether the clients at `i` and `j` claim the same side of the same reference.
pub open spec fn claim_same_place(configs: Seq<ConfigView>, i: int, j: int) -> bool {
    configs[i].reference == configs[j].reference && configs[i].position == configs[j].position
}

/// Whether no two clients claim the same side of the same reference.
pub open spec fn places_differ(configs: Seq<ConfigView>) -> bool {
    forall|i: int, j: int|
        0 <= i < j < configs.len() ==> !(#[trigger] claim_same_place(configs, i, j))
}

/// The configured clients, by name. No two have the same name.
pub struct ClientMap {
    entries: Vec<ClientConfig>,
}

impl View for ClientMap {
    type V = Seq<ConfigView>;

    closed spec fn view(&self) -> Seq<ConfigView> {
        self.entries@.map_values(|config: ClientConfig| config@)
    }
}

impl ClientMap {
    #[verifier::type_invariant]
    pub open spec fn well_formed(self) -> bool {
        names_differ(self@)
    }

    /// No clients.
    pub fn new() -> (map: ClientMap)
        ensures
            map@ == Seq::<ConfigView>::empty(),
    {
        let map = ClientMap { entries: Vec::new() };
        assert(map@ =~= Seq::<ConfigView>::empty());
        map
    }

    /// How many clients are configured.
    pub fn len(&self) -> (len: usize)
        ensures
            len == self@.len(),
    {
        self.entries.len()
    }

    /// Whether no client is configured.
    pub fn is_empty(&self) -> (empty: bool)
        ensures
            empty == (self@.len() == 0),
    {
        self.entries.len() == 0
    }

    /// The configurations of the clients.
    pub fn values(&self) -> (configs: &Vec<ClientConfig>)
        ensures
            configs@.map_values(|config: ClientConfig| config@) == self@,
    {
        &self.entries
    }

    /// Where the client of that name stands among the values, if it is configured.
    fn position_of(&self, name: &str) -> (found: Option<usize>)
        ensures
            match found {
                Some(i) => i < self@.len() && self@[i as int].name == name@,
                None => !has_name(self@, name@),
            },
    {
        let mut i: usize = 0;
        while i < self.entries.len()
            invariant
                i <= self.entries@.len(),
                forall|j: int| 0 <= j < i ==> (#[trigger] self@[j]).name != name@,
            decreases self.entries@.len() - i,
        {
            if same_text(self.entries[i].name.as_str(), name) {
                return Some(i);
            }
            i = i + 1;
        }
        None
    }

    /// Whether a client of that name is configured.
    pub fn contains_key(&self, name: &str) -> (contained: bool)
        ensures
            contained == has_name(self@, name@),
    {
        self.position_of(name).is_some()
    }

    /// The configuration of the client of that name.
    pub fn get(&self, name: &str) -> (config: Option<&ClientConfig>)
        ensures
            match config {
                Some(config) => self@.contains(config@) && config@.name == name@,
                None => !has_name(self@, name@),
            },
    {
        match self.position_of(name) {
            Some(i) => {
                assert(self@[i as int] == self.entries@[i as int]@);
                Some(&self.entries[i])
            },
            None => None,
        }
    }

    /// Add a client, unless one of its name is configured already. Returns
    /// whether it was added.
    pub fn add(&mut self, config: ClientConfig) -> (added: bool)
        ensures
            added == !has_name(old(self)@, config@.name),
            added ==> final(self)@ == old(self)@.push(config@),
            !added ==> final(self)@ == old(self)@,
    {
        if self.contains_key(config.name.as_str()) {
            return false;
        }
        proof {
            use_type_invariant(&*self);
        }
        let ghost before = self@;
        let mut entries: Vec<ClientConfig> = Vec::new();
        core::mem::swap(&mut entries, &mut self.entries);
        entries.push(config);
        proof {
            assert(entries@.map_values(|config: ClientConfig| config@) =~= before.push(config@));
        }
        self.entries = entries;
        true
    }
}

/// The names of a map's clients differ, so that a name picks one configuration.
pub proof fn law_name_picks_one_config(configs: Seq<ConfigView>, i: int, j: int)
    requires
        names_differ(configs),
        0 <= i < configs.len(),
        0 <= j < configs.len(),
        configs[i].name == configs[j].name,
    ensures
        i == j,
{
    if i < j {
        assert(configs[i].name != configs[j].name);
    } else if j < i {
        assert(configs[j].name != configs[i].name);
    }
}

/// What is wrong with the configuration of the clients.
#[derive(Debug, Clone, PartialEq, Eq)]
pub enum ConfigError {
    /// The entry is not of the form `name:position:reference`.
    InvalidFormat { entry: String },
    /// The entry's position is none of the four.
    InvalidPosition { text: String },
    /// A client is named "self".
    ReservedName,
    /// Two clients have the same name.
    DuplicateName { name: String },
    /// A client's reference is neither "self" nor the name of a client.
    UnknownReference { name: String, reference: String },
    /// Two clients claim the same side of the same reference.
    PositionConflict { first: String, second: String, position: Position, reference: String },
}

/// What a configuration error says.
pub ghost enum ConfigErrorView {
    InvalidFormat { entry: Seq<char> },
    InvalidPosition { text: Seq<char> },
    ReservedName,
    DuplicateName { name: Seq<char> },
    UnknownReference { name: Seq<char>, reference: Seq<char> },
    PositionConflict {
        first: Seq<char>,
        second: Seq<char>,
        position: Position,
        reference: Seq<char>,
    },
}

impl View for ConfigError {
    type V = ConfigErrorView;

    open spec fn view(&self) -> ConfigErrorView {
        match self {
            ConfigError::InvalidFormat { entry } => ConfigErrorView::InvalidFormat {
                entry: entry@,
            },
            ConfigError::InvalidPosition { text } => ConfigErrorView::InvalidPosition {
                text: text@,
            },
            ConfigError::ReservedName => ConfigErrorView::ReservedName,
            ConfigError::DuplicateName { name } => ConfigErrorView::DuplicateName { name: name@ },
            ConfigError::UnknownReference { name, reference } => ConfigErrorView::UnknownReference {
                name: name@,
                reference: reference@,
            },
            ConfigError::PositionConflict { first, second, position, reference } =>
                ConfigErrorView::PositionConflict {
                first: first@,
                second: second@,
                position: *position,
                reference: reference@,
            },
        }
    }
}

impl ConfigErrorView {
    /// The message shown to the user.
    pub open spec fn message(self) -> Seq<char> {
        match self {
            ConfigErrorView::InvalidFormat { entry } => "Invalid --accept format '"@ + entry
                + "'. Expected format: name:position:reference"@,
            ConfigErrorView::InvalidPosition { text } => "Invalid position '"@ + text
                + "'. Must be one of: leftof, rightof, topof, bottomof"@,
            ConfigErrorView::ReservedName => "Client name 'self' is reserved for the server"@,
            ConfigErrorView::DuplicateName { name } => "Duplicate client name: "@ + name,
            ConfigErrorView::UnknownReference { name, reference } => "Client '"@ + name
                + "' references non-existent client '"@ + reference + "'"@,
            ConfigErrorView::PositionConflict { first, second, position, reference } =>
                "Position conflict: Both '"@ + first + "' and '"@ + second + "' claim to be "@
                + position.label() + " of '"@ + reference + "'"@,
        }
    }
}

impl ConfigError {
    /// The message shown to the user.
    pub fn message(&self) -> (message: String)
        ensures
            message@ == self@.message(),
    {
        match self {
            ConfigError::InvalidFormat { entry } => "Invalid --accept format '".to_owned().concat(
                entry.as_str(),
            ).concat("'. Expected format: name:position:reference"),
            ConfigError::InvalidPosition { text } => "Invalid position '".to_owned().concat(
                text.as_str(),
            ).concat("'. Must be one of: leftof, rightof, topof, bottomof"),
            ConfigError::ReservedName => "Client name 'self' is reserved for the server".to_owned(),
            ConfigError::DuplicateName { name } => "Duplicate client name: ".to_owned().concat(
                name.as_str(),
            ),
            ConfigError::UnknownReference { name, reference } => "Client '".to_owned().concat(
                name.as_str(),
            ).concat("' references non-existent client '").concat(reference.as_str()).concat("'"),
            ConfigError::PositionConflict { first, second, position, reference } =>
                "Position conflict: Both '".to_owned().concat(first.as_str()).concat(
                "' and '",
            ).concat(second.as_str()).concat("' claim to be ").concat(
                position.label_text(),
            ).concat(" of '").concat(reference.as_str()).concat("'"),
        }
    }
}

/// A text names a position exactly when its lowercase form is the word for it, and
/// the text of a refusal is the text as it was given.
pub proof fn law_words_name_positions(s: &str, parsed: Result<Position, InvalidPosition>)
    requires
        call_ensures(Position::from_str, (s,), parsed),
    ensures
        parsed matches Ok(Position::LeftOf) <==> lowercase(s@) == "leftof"@,
        parsed matches Ok(Position::RightOf) <==> lowercase(s@) == "rightof"@,
        parsed matches Ok(Position::TopOf) <==> lowercase(s@) == "topof"@,
        parsed matches Ok(Position::BottomOf) <==> lowercase(s@) == "bottomof"@,
        parsed matches Err(error) ==> error.text@ == s@,
{
    lemma_words_differ();
}

/// The words for the positions differ.
pub proof fn lemma_words_differ()
    ensures
        "leftof"@ != "rightof"@,
        "leftof"@ != "topof"@,
        "leftof"@ != "bottomof"@,
        "rightof"@ != "topof"@,
        "rightof"@ != "bottomof"@,
        "topof"@ != "bottomof"@,
{
    reveal_strlit("leftof");
    reveal_strlit("rightof");
    reveal_strlit("topof");
    reveal_strlit("bottomof");
    assert("leftof"@[0] == 'l');
    assert("rightof"@[0] == 'r');
    assert("topof"@[0] == 't');
    assert("bottomof"@[0] == 'b');
}

/// A word names a position exactly when it is the word for it, letter by letter.
pub proof fn law_exact_words_name_positions(word: &str, position: Option<Position>)
    requires
        call_ensures(Position::from_word, (word,), position),
    ensures
        position == Some(Position::LeftOf) <==> word@ == "leftof"@,
        position == Some(Position::RightOf) <==> word@ == "rightof"@,
        position == Some(Position::TopOf) <==> word@ == "topof"@,
        position == Some(Position::BottomOf) <==> word@ == "bottomof"@,
{
    lemma_words_differ();
}

/// A client to the left of its reference is on the left side of it, and so on.
pub proof fn law_positions_are_sides(position: Position, side: Placement)
    requires
        call_ensures(Position::to_schengen, (position,), side),
    ensures
        position == Position::LeftOf <==> side == Placement::Left,
        position == Position::RightOf <==> side == Placement::Right,
        position == Position::TopOf <==> side == Placement::Above,
        position == Position::BottomOf <==> side == Placement::Below,
{
}

/// A client is beside the server exactly when its reference is the text "self".
pub proof fn law_self_is_the_server(config: &ClientConfig, beside: bool)
    requires
        call_ensures(ClientConfig::is_beside_server, (config,), beside),
    ensures
        beside <==> config.reference@ == "self"@,
        config@.beside_server() <==> config.reference@ == "self"@,
        config@.name == config.name@,
        config@.position == config.position,
        config@.reference == config.reference@,
{
}

/// A name is configured exactly when a client has it, letter by letter: none is in
/// an empty map, and one more client adds its own name and no other.
pub proof fn law_names_are_added_one_by_one(
    configs: Seq<ConfigView>,
    config: ConfigView,
    name: Seq<char>,
)
    ensures
        !has_name(Seq::empty(), name),
        has_name(configs.push(config), name) <==> has_name(configs, name) || config.name == name,
{
    let longer = configs.push(config);
    if has_name(configs, name) {
        let i = choose|i: int| 0 <= i < configs.len() && (#[trigger] configs[i]).name == name;
        assert(longer[i].name == name);
    }
    if config.name == name {
        assert(longer[configs.len() as int].name == name);
    }
    if has_name(longer, name) && config.name != name {
        let i = choose|i: int| 0 <= i < longer.len() && (#[trigger] longer[i]).name == name;
        assert(configs[i].name == name);
    }
}

/// Adding a client to a map keeps all that were there, in their order, and adds it
/// last, unless its name was taken; then nothing changes.
pub proof fn law_clients_are_added_last(map: &mut ClientMap, config: ClientConfig, added: bool)
    requires
        call_ensures(ClientMap::add, (map, config), added),
    ensures
        added <==> forall|i: int|
            0 <= i < old(map)@.len() ==> (#[trigger] old(map)@[i]).name != config.name@,
        added ==> final(map)@ == old(map)@.push(
            ConfigView {
                name: config.name@,
                position: config.position,
                reference: config.reference@,
            },
        ),
        !added ==> final(map)@ == old(map)@,
{
}

/// A name finds its client: one of that very name, if there is one.
pub proof fn law_names_find_their_clients(
    map: &ClientMap,
    name: &str,
    found: Option<&ClientConfig>,
    contained: bool,
)
    requires
        call_ensures(ClientMap::get, (map, name), found),
        call_ensures(ClientMap::contains_key, (map, name), contained),
    ensures
        found matches Some(config) ==> config.name@ == name@ && map@.contains(config@),
        found is None <==> forall|i: int|
            0 <= i < map@.len() ==> (#[trigger] map@[i]).name != name@,
        contained <==> found is Some,
{
    if let Some(config) = found {
        let i = choose|i: int| 0 <= i < map@.len() && map@[i] == config@;
        assert(map@[i].name == name@);
    }
}

/// A map is as long as it has clients, and its values are those clients in their
/// order.
pub proof fn law_values_are_the_clients(
    map: &ClientMap,
    len: usize,
    empty: bool,
    values: &Vec<ClientConfig>,
)
    requires
        call_ensures(ClientMap::len, (map,), len),
        call_ensures(ClientMap::is_empty, (map,), empty),
        call_ensures(ClientMap::values, (map,), values),
    ensures
        values@.len() == map@.len() == len,
        empty <==> len == 0,
        forall|i: int|
            0 <= i < len ==> {
                &&& (#[trigger] map@[i]).name == values@[i].name@
                &&& map@[i].position == values@[i].position
                &&& map@[i].reference == values@[i].reference@
            },
{
    let views = values@.map_values(|config: ClientConfig| config@);
    assert forall|i: int| 0 <= i < len implies {
        &&& (#[trigger] map@[i]).name == values@[i].name@
        &&& map@[i].position == values@[i].position
        &&& map@[i].reference == values@[i].reference@
    } by {
        assert(views[i] == values@[i]@);
    }
}

/// The message of an error names what is wrong, word for word.
pub proof fn law_messages_name_what_is_wrong(error: &ConfigError, message: String)
    requires
        call_ensures(ConfigError::message, (error,), message),
    ensures
        match *error {
            ConfigError::InvalidFormat { entry } => message@ == "Invalid --accept format '"@
                + entry@ + "'. Expected format: name:position:reference"@,
            ConfigError::InvalidPosition { text } => message@ == "Invalid position '"@ + text@
                + "'. Must be one of: leftof, rightof, topof, bottomof"@,
            ConfigError::ReservedName => message@
                == "Client name 'self' is reserved for the server"@,
            ConfigError::DuplicateName { name } => message@ == "Duplicate client name: "@ + name@,
            ConfigError::UnknownReference { name, reference } => message@ == "Client '"@ + name@
                + "' references non-existent client '"@ + reference@ + "'"@,
            ConfigError::PositionConflict { first, second, position, reference } => message@
                == "Position conflict: Both '"@ + first@ + "' and '"@ + second@
                + "' claim to be "@ + match position {
                Position::LeftOf => "LeftOf"@,
                Position::RightOf => "RightOf"@,
                Position::TopOf => "TopOf"@,
                Position::BottomOf => "BottomOf"@,
            } + " of '"@ + reference@ + "'"@,
        },
{
}

/// What is said of an error is what it holds, each thing under its own name.
pub proof fn law_errors_show_what_they_hold(error: ConfigError)
    ensures
        error matches ConfigError::InvalidFormat { entry } ==> error@
            == (ConfigErrorView::InvalidFormat { entry: entry@ }),
        error matches ConfigError::InvalidPosition { text } ==> error@
            == (ConfigErrorView::InvalidPosition { text: text@ }),
        error is ReservedName <==> error@ is ReservedName,
        error matches ConfigError::DuplicateName { name } ==> error@
            == (ConfigErrorView::DuplicateName { name: name@ }),
        error matches ConfigError::UnknownReference { name, reference } ==> error@
            == (ConfigErrorView::UnknownReference { name: name@, reference: reference@ }),
        error matches ConfigError::PositionConflict { first, second, position, reference } ==> {
            &&& error@ matches ConfigErrorView::PositionConflict {
                first: told_first,
                second: told_second,
                position: told_position,
                reference: told_reference,
            }
            &&& told_first == first@
            &&& told_second == second@
            &&& told_position == position
            &&& told_reference == reference@
        },
{
}

} // verus!
