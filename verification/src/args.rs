//! What the command line asks for: the log level and the clients to accept.

use crate::config::{
    ClientConfig, ClientMap, ConfigError, ConfigErrorView, ConfigView, Position, claim_same_place,
    has_name, names_differ, places_differ, position_of_word,
};
use crate::text::{fields, lowercase, same_text, split_at_colons};
use vstd::prelude::*;

verus! {

/// The verbosity levels of the `log` crate.
#[verifier::external_type_specification]
pub struct ExLevelFilter(log::LevelFilter);

/// The arguments of the server.
pub struct Args {
    /// The clients to accept, each as `name:position:reference`, where position
    /// is leftof, rightof, topof or bottomof, and reference is the name of
    /// another client or "self" for the server.
    pub accept: Vec<String>,
    /// Port to listen on.
    pub port: u16,
    /// How often more verbose output was asked for.
    pub verbose: u8,
}

/// What one entry of the `--accept` arguments says, if it can be understood on
/// its own.
pub open spec fn parsed_entry(entry: Seq<char>) -> Result<ConfigView, ConfigErrorView> {
    let parts = fields(entry, ':');
    if parts.len() != 3 {
        Err(ConfigErrorView::InvalidFormat { entry })
    } else {
        match position_of_word(lowercase(parts[1])) {
            None => Err(ConfigErrorView::InvalidPosition { text: parts[1] }),
            Some(position) => if parts[0] == "self"@ {
                Err(ConfigErrorView::ReservedName)
            } else {
                Ok(ConfigView { name: parts[0], position, reference: parts[2] })
            },
        }
    }
}

/// What the entries say together, or what is wrong with the first entry that is
/// bad or repeats an earlier name.
pub open spec fn parsed_entries(entries: Seq<Seq<char>>) -> Result<
    Seq<ConfigView>,
    ConfigErrorView,
>
    decreases entries.len(),
{
    if entries.len() == 0 {
        Ok(Seq::<ConfigView>::empty())
    } else {
        match parsed_entries(entries.drop_last()) {
            Err(error) => Err(error),
            Ok(before) => match parsed_entry(entries.last()) {
                Err(error) => Err(error),
                Ok(config) => if has_name(before, config.name) {
                    Err(ConfigErrorView::DuplicateName { name: config.name })
                } else {
                    Ok(before.push(config))
                },
            },
        }
    }
}

/// Whether the reference of the client at `i` is neither the server nor a
/// configured client.
pub open spec fn dangles(configs: Seq<ConfigView>, i: int) -> bool {
    !configs[i].beside_server() && !has_name(configs, configs[i].reference)
}

/// Whether the client at `i` is the first whose reference dangles.
pub open spec fn first_dangling(configs: Seq<ConfigView>, i: int) -> bool {
    &&& 0 <= i < configs.len()
    &&& dangles(configs, i)
    &&& forall|j: int| 0 <= j < i ==> !(#[trigger] dangles(configs, j))
}

/// Whether every reference is the server or a configured client.
pub open spec fn references_exist(configs: Seq<ConfigView>) -> bool {
    forall|i: int| 0 <= i < configs.len() ==> !(#[trigger] dangles(configs, i))
}

/// Whether `second` is the first client that claims the place of an earlier
/// one, and `first` is that earlier one.
pub open spec fn first_conflict(configs: Seq<ConfigView>, first: int, second: int) -> bool {
    &&& 0 <= first < second < configs.len()
    &&& claim_same_place(configs, first, second)
    &&& places_differ(configs.take(second))
}

/// The error for two clients that claim the same place.
pub open spec fn conflict_error(
    configs: Seq<ConfigView>,
    first: int,
    second: int,
) -> ConfigErrorView {
    ConfigErrorView::PositionConflict {
        first: configs[first].name,
        second: configs[second].name,
        position: configs[second].position,
        reference: configs[second].reference,
    }
}

/// The error for a client whose reference dangles.
pub open spec fn dangling_error(configs: Seq<ConfigView>, i: int) -> ConfigErrorView {
    ConfigErrorView::UnknownReference {
        name: configs[i].name,
        reference: configs[i].reference,
    }
}

/// Validate that no two clients claim the same side of the same reference.
///
/// Reported is the first client that claims the place of an earlier one.
pub fn validate_positions(configs: &ClientMap) -> (checked: Result<(), ConfigError>)
    ensures
        checked is Ok <==> places_differ(configs@),
        checked matches Err(error) ==> exists|first: int, second: int| #[trigger]
            first_conflict(configs@, first, second) && error@ == conflict_error(
                configs@,
                first,
                second,
            ),
{
    let values = configs.values();
    let ghost view = configs@;
    let mut second: usize = 0;
    while second < values.len()
        invariant
            values@.map_values(|config: ClientConfig| config@) == view,
            view == configs@,
            second <= values@.len(),
            places_differ(view.take(second as int)),
        decreases values@.len() - second,
    {
        let mut first: usize = 0;
        while first < second
            invariant
                values@.map_values(|config: ClientConfig| config@) == view,
                view == configs@,
                first <= second < values@.len(),
                places_differ(view.take(second as int)),
                forall|i: int|
                    0 <= i < first ==> !(#[trigger] claim_same_place(view, i, second as int)),
            decreases second - first,
        {
            let a = &values[first];
            let b = &values[second];
            assert(view[first as int] == values@[first as int]@);
            assert(view[second as int] == values@[second as int]@);
            if a.reference == b.reference && a.position == b.position {
                assert(claim_same_place(view, first as int, second as int));
                assert(first_conflict(view, first as int, second as int));
                return Err(
                    ConfigError::PositionConflict {
                        first: a.name.clone(),
                        second: b.name.clone(),
                        position: b.position,
                        reference: b.reference.clone(),
                    },
                );
            }
            first = first + 1;
        }
        proof {
            let longer = view.take(second + 1);
            assert forall|i: int, j: int| 0 <= i < j < longer.len() implies !(
            #[trigger] claim_same_place(longer, i, j)) by {
                if j < second {
                    assert(!claim_same_place(view.take(second as int), i, j));
                } else {
                    assert(!claim_same_place(view, i, second as int));
                }
            }
        }
        second = second + 1;
    }
    proof {
        assert(view.take(second as int) =~= view);
    }
    Ok(())
}

/// Check that every reference is the server or a configured client.
///
/// Reported is the first client whose reference is neither.
pub fn validate_references(configs: &ClientMap) -> (checked: Result<(), ConfigError>)
    ensures
        checked is Ok <==> references_exist(configs@),
        checked matches Err(error) ==> exists|i: int| #[trigger]
            first_dangling(configs@, i) && error@ == dangling_error(configs@, i),
{
    let values = configs.values();
    let ghost view = configs@;
    let mut i: usize = 0;
    while i < values.len()
        invariant
            values@.map_values(|config: ClientConfig| config@) == view,
            view == configs@,
            i <= values@.len(),
            forall|j: int| 0 <= j < i ==> !(#[trigger] dangles(view, j)),
        decreases values@.len() - i,
    {
        let config = &values[i];
        assert(view[i as int] == values@[i as int]@);
        if !config.is_beside_server() && !configs.contains_key(config.reference.as_str()) {
            assert(first_dangling(view, i as int));
            return Err(
                ConfigError::UnknownReference {
                    name: config.name.clone(),
                    reference: config.reference.clone(),
                },
            );
        }
        i = i + 1;
    }
    Ok(())
}

/// Whether `parsed` is what the `--accept` entries come to.
pub open spec fn is_client_config(
    entries: Seq<Seq<char>>,
    parsed: Result<Seq<ConfigView>, ConfigErrorView>,
) -> bool {
    match parsed_entries(entries) {
        Err(error) => parsed == Err::<Seq<ConfigView>, ConfigErrorView>(error),
        Ok(configs) => if !references_exist(configs) {
            exists|i: int| #[trigger]
                first_dangling(configs, i) && parsed == Err::<Seq<ConfigView>, ConfigErrorView>(
                    dangling_error(configs, i),
                )
        } else if !places_differ(configs) {
            exists|first: int, second: int| #[trigger]
                first_conflict(configs, first, second) && parsed == Err::<
                    Seq<ConfigView>,
                    ConfigErrorView,
                >(conflict_error(configs, first, second))
        } else {
            parsed == Ok::<Seq<ConfigView>, ConfigErrorView>(configs)
        },
    }
}

/// The contents of a result with a client map.
pub open spec fn parsed_view(parsed: Result<ClientMap, ConfigError>) -> Result<
    Seq<ConfigView>,
    ConfigErrorView,
> {
    match parsed {
        Ok(map) => Ok(map@),
        Err(error) => Err(error@),
    }
}

/// Parse one `--accept` entry on its own.
fn parse_entry(entry: &str) -> (parsed: Result<ClientConfig, ConfigError>)
    ensures
        match parsed {
            Ok(config) => parsed_entry(entry@) == Ok::<ConfigView, ConfigErrorView>(config@),
            Err(error) => parsed_entry(entry@) == Err::<ConfigView, ConfigErrorView>(error@),
        },
{
    let parts = split_at_colons(entry);
    let ghost views = parts@.map_values(|part: String| part@);
    if parts.len() != 3 {
        return Err(ConfigError::InvalidFormat { entry: entry.to_owned() });
    }
    assert(views[0] == parts@[0]@);
    assert(views[1] == parts@[1]@);
    assert(views[2] == parts@[2]@);
    let position = match Position::from_str(parts[1].as_str()) {
        Ok(position) => position,
        Err(error) => {
            return Err(ConfigError::InvalidPosition { text: error.text });
        },
    };
    if same_text(parts[0].as_str(), "self") {
        return Err(ConfigError::ReservedName);
    }
    Ok(ClientConfig { name: parts[0].clone(), position, reference: parts[2].clone() })
}

impl Args {
    /// The `--accept` entries as text.
    pub open spec fn entries(self) -> Seq<Seq<char>> {
        self.accept@.map_values(|entry: String| entry@)
    }

    /// Get the log level based on the verbosity count.
    pub fn get_log_level(&self) -> (level: log::LevelFilter)
        ensures
            level == match self.verbose {
                0u8 => log::LevelFilter::Warn,
                1u8 => log::LevelFilter::Info,
                2u8 => log::LevelFilter::Debug,
                _ => log::LevelFilter::Trace,
            },
    {
        match self.verbose {
            0 => log::LevelFilter::Warn,
            1 => log::LevelFilter::Info,
            2 => log::LevelFilter::Debug,
            _ => log::LevelFilter::Trace,
        }
    }

    /// Parse and validate the client configuration from the `--accept` arguments.
    ///
    /// Returns an error if the format of an entry is invalid, if a position is
    /// not one of the valid values, if a client has the reserved name "self" or
    /// the name of an earlier client, if a client references a non-existent
    /// client, or if two clients claim the same position.
    pub fn parse_client_config(&self) -> (parsed: Result<ClientMap, ConfigError>)
        ensures
            is_client_config(self.entries(), parsed_view(parsed)),
    {
        let mut configs = ClientMap::new();
        let ghost entries = self.entries();
        let mut i: usize = 0;
        proof {
            assert(entries.take(0) =~= Seq::<Seq<char>>::empty());
        }
        while i < self.accept.len()
            invariant
                entries == self.entries(),
                i <= self.accept@.len(),
                parsed_entries(entries.take(i as int)) == Ok::<Seq<ConfigView>, ConfigErrorView>(
                    configs@,
                ),
            decreases self.accept@.len() - i,
        {
            proof {
                assert(entries.take(i + 1).drop_last() =~= entries.take(i as int));
                assert(entries.take(i + 1).last() == self.accept@[i as int]@);
            }
            let config = match parse_entry(self.accept[i].as_str()) {
                Ok(config) => config,
                Err(error) => {
                    proof {
                        lemma_error_stays(entries, i + 1);
                    }
                    return Err(error);
                },
            };
            let name = config.name.clone();
            let ghost added = config@;
            if !configs.add(config) {
                proof {
                    lemma_error_stays(entries, i + 1);
                }
                return Err(ConfigError::DuplicateName { name });
            }
            i = i + 1;
        }
        proof {
            assert(entries.take(i as int) =~= entries);
        }
        match validate_references(&configs) {
            Ok(()) => {},
            Err(error) => {
                return Err(error);
            },
        }
        match validate_positions(&configs) {
            Ok(()) => {},
            Err(error) => {
                return Err(error);
            },
        }
        Ok(configs)
    }
}

/// What is accepted is sound: each entry says its client's name, position and
/// reference; names differ and none is "self"; every reference is the server or
/// a configured client; no two clients claim the same place.
pub proof fn law_accepted_configuration(entries: Seq<Seq<char>>, configs: Seq<ConfigView>)
    requires
        is_client_config(entries, Ok(configs)),
    ensures
        configs.len() == entries.len(),
        forall|i: int|
            0 <= i < entries.len() ==> parsed_entry(#[trigger] entries[i]) == Ok::<
                ConfigView,
                ConfigErrorView,
            >(configs[i]),
        names_differ(configs),
        !has_name(configs, "self"@),
        references_exist(configs),
        places_differ(configs),
{
    lemma_parsed_entries(entries);
}

/// What is sound is accepted: if each entry can be understood, and names,
/// references and places are in order, the configurations are returned.
pub proof fn law_sound_configuration_is_accepted(
    entries: Seq<Seq<char>>,
    configs: Seq<ConfigView>,
    parsed: Result<Seq<ConfigView>, ConfigErrorView>,
)
    requires
        is_client_config(entries, parsed),
        configs.len() == entries.len(),
        forall|i: int|
            0 <= i < entries.len() ==> parsed_entry(#[trigger] entries[i]) == Ok::<
                ConfigView,
                ConfigErrorView,
            >(configs[i]),
        names_differ(configs),
        references_exist(configs),
        places_differ(configs),
    ensures
        parsed == Ok::<Seq<ConfigView>, ConfigErrorView>(configs),
{
    lemma_entries_parse(entries, configs);
}

/// What the entries come to holds one configuration for each of them.
proof fn lemma_parsed_entries(entries: Seq<Seq<char>>)
    ensures
        parsed_entries(entries) matches Ok(configs) ==> {
            &&& configs.len() == entries.len()
            &&& forall|i: int|
                0 <= i < entries.len() ==> parsed_entry(#[trigger] entries[i]) == Ok::<
                    ConfigView,
                    ConfigErrorView,
                >(configs[i])
            &&& names_differ(configs)
            &&& !has_name(configs, "self"@)
        },
    decreases entries.len(),
{
    if entries.len() > 0 {
        lemma_parsed_entries(entries.drop_last());
        if let Ok(configs) = parsed_entries(entries) {
            let before = configs.drop_last();
            assert(parsed_entries(entries.drop_last()) is Ok);
            assert(parsed_entries(entries.drop_last())->Ok_0 =~= before);
            assert forall|i: int| 0 <= i < entries.len() implies parsed_entry(
                #[trigger] entries[i],
            ) == Ok::<ConfigView, ConfigErrorView>(configs[i]) by {
                if i < entries.len() - 1 {
                    assert(entries.drop_last()[i] == entries[i]);
                }
            }
            assert forall|i: int, j: int| 0 <= i < j < configs.len() implies (
            #[trigger] configs[i]).name != (#[trigger] configs[j]).name by {
                if j < before.len() {
                    assert(before[i].name != before[j].name);
                } else {
                    assert(before[i] == configs[i]);
                }
            }
            assert forall|i: int| 0 <= i < configs.len() implies (#[trigger] configs[i]).name
                != "self"@ by {
                if i < before.len() {
                    assert(before[i] == configs[i]);
                }
            }
        }
    }
}

/// Entries that can be understood, with differing names, are all taken up.
proof fn lemma_entries_parse(entries: Seq<Seq<char>>, configs: Seq<ConfigView>)
    requires
        configs.len() == entries.len(),
        forall|i: int|
            0 <= i < entries.len() ==> parsed_entry(#[trigger] entries[i]) == Ok::<
                ConfigView,
                ConfigErrorView,
            >(configs[i]),
        names_differ(configs),
    ensures
        parsed_entries(entries) == Ok::<Seq<ConfigView>, ConfigErrorView>(configs),
    decreases entries.len(),
{
    if entries.len() == 0 {
        assert(configs =~= Seq::<ConfigView>::empty());
    } else {
        let before = configs.drop_last();
        assert forall|i: int| 0 <= i < entries.drop_last().len() implies parsed_entry(
            #[trigger] entries.drop_last()[i],
        ) == Ok::<ConfigView, ConfigErrorView>(before[i]) by {
            assert(entries.drop_last()[i] == entries[i]);
        }
        assert forall|i: int, j: int| 0 <= i < j < before.len() implies (#[trigger] before[i]).name
            != (#[trigger] before[j]).name by {
            assert(configs[i].name != configs[j].name);
        }
        lemma_entries_parse(entries.drop_last(), before);
        let last = configs.len() - 1;
        assert(entries[last] == entries.last());
        assert(!has_name(before, configs.last().name)) by {
            assert forall|i: int| 0 <= i < before.len() implies (#[trigger] before[i]).name
                != configs.last().name by {
                assert(configs[i].name != configs[last].name);
            }
        }
        assert(before.push(configs.last()) =~= configs);
    }
}

/// What is wrong with the first entries is wrong with all of them.
proof fn lemma_error_stays(entries: Seq<Seq<char>>, n: int)
    requires
        0 <= n <= entries.len(),
        parsed_entries(entries.take(n)) is Err,
    ensures
        parsed_entries(entries) == parsed_entries(entries.take(n)),
    decreases entries.len() - n,
{
    if n == entries.len() {
        assert(entries.take(n) =~= entries);
    } else {
        assert(entries.take(n + 1).drop_last() =~= entries.take(n));
        lemma_error_stays(entries, n + 1);
    }
}

/// An entry is written as `name:word:reference`.
pub open spec fn written(name: Seq<char>, word: Seq<char>, reference: Seq<char>) -> Seq<char> {
    name.push(':') + word.push(':') + reference
}

/// Whether an entry says this of a client: it is the name, a word for the position
/// in any case, and the reference, with colons between them.
pub open spec fn says(entry: Seq<char>, client: ConfigView) -> bool {
    exists|word: Seq<char>|
        !word.contains(':') && entry == #[trigger] written(client.name, word, client.reference)
            && lowercase(word) == match client.position {
            Position::LeftOf => "leftof"@,
            Position::RightOf => "rightof"@,
            Position::TopOf => "topof"@,
            Position::BottomOf => "bottomof"@,
        }
}

/// Whether a text is "self" or the name of one of the clients.
pub open spec fn is_known(clients: Seq<ConfigView>, reference: Seq<char>) -> bool {
    reference == "self"@ || exists|j: int|
        0 <= j < clients.len() && (#[trigger] clients[j]).name == reference
}

/// An entry is read as it is written: the name is the text before the first colon,
/// and the reference is the text after the second one, both unchanged. Of the word
/// between them only the case does not matter.
pub proof fn law_entries_are_read_as_written(
    name: Seq<char>,
    word: Seq<char>,
    reference: Seq<char>,
)
    requires
        !name.contains(':'),
        !word.contains(':'),
        !reference.contains(':'),
    ensures
        ({
            let entry = name.push(':') + word.push(':') + reference;
            let lower = lowercase(word);
            let position = if lower == "leftof"@ {
                Some(Position::LeftOf)
            } else if lower == "rightof"@ {
                Some(Position::RightOf)
            } else if lower == "topof"@ {
                Some(Position::TopOf)
            } else if lower == "bottomof"@ {
                Some(Position::BottomOf)
            } else {
                None
            };
            match (parsed_entry(entry), position) {
                (Ok(config), Some(position)) => {
                    &&& name != "self"@
                    &&& config.name == name
                    &&& config.position == position
                    &&& config.reference == reference
                },
                (Ok(_), None) => false,
                (Err(error), Some(_)) => name == "self"@ && error is ReservedName,
                (Err(error), None) => error == (ConfigErrorView::InvalidPosition { text: word }),
            }
        }),
{
    crate::text::lemma_three_fields(name, word, reference);
    crate::config::lemma_words_differ();
    let parts = fields(name.push(':') + word.push(':') + reference, ':');
    assert(parts[0] == name && parts[1] == word && parts[2] == reference);
}

/// An entry is malformed exactly when it cannot be written as three texts without
/// colons; the error then holds the whole entry. What can be read was written so.
pub proof fn law_malformed_entries_are_told(entry: Seq<char>)
    ensures
        match parsed_entry(entry) {
            Err(ConfigErrorView::InvalidFormat { entry: told }) => {
                &&& told == entry
                &&& forall|name: Seq<char>, word: Seq<char>, reference: Seq<char>|
                    !name.contains(':') && !word.contains(':') && !reference.contains(':')
                        ==> entry != #[trigger] written(name, word, reference)
            },
            Ok(config) => {
                &&& !config.name.contains(':')
                &&& !config.reference.contains(':')
                &&& exists|word: Seq<char>|
                    !word.contains(':') && entry == #[trigger] written(
                        config.name,
                        word,
                        config.reference,
                    )
            },
            Err(_) => true,
        },
{
    let parts = fields(entry, ':');
    crate::text::law_fields_rejoin(entry, ':');
    if parts.len() == 3 {
        crate::text::lemma_joined_few(parts);
        assert(entry == written(parts[0], parts[1], parts[2]));
        assert(!parts[0].contains(':') && !parts[1].contains(':') && !parts[2].contains(':'));
        if let Ok(config) = parsed_entry(entry) {
            assert(entry == written(config.name, parts[1], config.reference));
        }
    } else {
        assert forall|name: Seq<char>, word: Seq<char>, reference: Seq<char>|
            !name.contains(':') && !word.contains(':') && !reference.contains(
                ':',
            ) implies entry != #[trigger] written(name, word, reference) by {
            crate::text::lemma_three_fields(name, word, reference);
        }
    }
}

/// Arguments that are accepted say what is configured: one client for each entry,
/// of the name, position and reference written there. Names differ and none is
/// "self"; each reference is "self" or the name of one of the clients; and no two
/// clients have the same position beside the same reference.
pub proof fn law_accepted_arguments_say_the_clients(args: &Args, map: ClientMap)
    requires
        call_ensures(Args::parse_client_config, (args,), Ok(map)),
    ensures
        map@.len() == args.accept@.len(),
        forall|i: int| 0 <= i < map@.len() ==> says((#[trigger] args.accept@[i])@, map@[i]),
        forall|i: int| 0 <= i < map@.len() ==> (#[trigger] map@[i]).name != "self"@,
        forall|i: int, j: int|
            0 <= i < j < map@.len() ==> (#[trigger] map@[i]).name != (#[trigger] map@[j]).name,
        forall|i: int| 0 <= i < map@.len() ==> is_known(map@, (#[trigger] map@[i]).reference),
        forall|i: int, j: int|
            0 <= i < j < map@.len() ==> (#[trigger] map@[i]).reference != (
            #[trigger] map@[j]).reference || map@[i].position != map@[j].position,
{
    let entries = args.entries();
    law_accepted_configuration(entries, map@);
    assert forall|i: int| 0 <= i < map@.len() implies says(
        (#[trigger] args.accept@[i])@,
        map@[i],
    ) by {
        assert(entries[i] == args.accept@[i]@);
        lemma_readable_entry_says(entries[i], map@[i]);
    }
    assert forall|i: int| 0 <= i < map@.len() implies is_known(
        map@,
        (#[trigger] map@[i]).reference,
    ) by {
        assert(!dangles(map@, i));
    }
    assert forall|i: int, j: int| 0 <= i < j < map@.len() implies (#[trigger] map@[i]).reference
        != (#[trigger] map@[j]).reference || map@[i].position != map@[j].position by {
        assert(!claim_same_place(map@, i, j));
    }
}

/// An entry that is read says what was read.
proof fn lemma_readable_entry_says(entry: Seq<char>, client: ConfigView)
    requires
        parsed_entry(entry) == Ok::<ConfigView, ConfigErrorView>(client),
    ensures
        says(entry, client),
{
    law_malformed_entries_are_told(entry);
    let word = choose|word: Seq<char>|
        !word.contains(':') && entry == #[trigger] written(client.name, word, client.reference);
    law_entries_are_read_as_written(client.name, word, client.reference);
}

/// An entry that says something is read as that.
proof fn lemma_saying_entry_is_read(entry: Seq<char>, client: ConfigView)
    requires
        says(entry, client),
        !client.name.contains(':'),
        !client.reference.contains(':'),
        client.name != "self"@,
    ensures
        parsed_entry(entry) == Ok::<ConfigView, ConfigErrorView>(client),
{
    crate::config::lemma_words_differ();
    let word = choose|word: Seq<char>|
        !word.contains(':') && entry == #[trigger] written(client.name, word, client.reference)
            && lowercase(word) == match client.position {
            Position::LeftOf => "leftof"@,
            Position::RightOf => "rightof"@,
            Position::TopOf => "topof"@,
            Position::BottomOf => "bottomof"@,
        };
    law_entries_are_read_as_written(client.name, word, client.reference);
}

/// Arguments that say sound clients are accepted, and give exactly these clients.
pub proof fn law_sound_arguments_are_accepted(
    args: &Args,
    parsed: Result<ClientMap, ConfigError>,
    clients: Seq<ConfigView>,
)
    requires
        call_ensures(Args::parse_client_config, (args,), parsed),
        clients.len() == args.accept@.len(),
        forall|i: int|
            0 <= i < clients.len() ==> {
                &&& says(args.accept@[i]@, #[trigger] clients[i])
                &&& !clients[i].name.contains(':')
                &&& !clients[i].reference.contains(':')
                &&& clients[i].name != "self"@
            },
        forall|i: int, j: int|
            0 <= i < j < clients.len() ==> (#[trigger] clients[i]).name != (
            #[trigger] clients[j]).name,
        forall|i: int|
            0 <= i < clients.len() ==> is_known(clients, (#[trigger] clients[i]).reference),
        forall|i: int, j: int|
            0 <= i < j < clients.len() ==> (#[trigger] clients[i]).reference != (
            #[trigger] clients[j]).reference || clients[i].position != clients[j].position,
    ensures
        parsed matches Ok(map) && map@ == clients,
{
    let entries = args.entries();
    assert forall|i: int| 0 <= i < entries.len() implies parsed_entry(#[trigger] entries[i])
        == Ok::<ConfigView, ConfigErrorView>(clients[i]) by {
        assert(clients[i].name != "self"@);
        assert(entries[i] == args.accept@[i]@);
        lemma_saying_entry_is_read(entries[i], clients[i]);
    }
    assert forall|i: int| 0 <= i < clients.len() implies !(#[trigger] dangles(clients, i)) by {
        assert(is_known(clients, clients[i].reference));
    }
    assert forall|i: int, j: int| 0 <= i < j < clients.len() implies !(
    #[trigger] claim_same_place(clients, i, j)) by {
        assert(clients[i].reference != clients[j].reference || clients[i].position
            != clients[j].position);
    }
    law_sound_configuration_is_accepted(entries, clients, parsed_view(parsed));
}

/// The first entry that is bad on its own, or has the name of an earlier one, is
/// what the arguments are refused for.
pub proof fn law_first_bad_entry_is_reported(
    args: &Args,
    parsed: Result<ClientMap, ConfigError>,
    k: int,
    clients: Seq<ConfigView>,
)
    requires
        call_ensures(Args::parse_client_config, (args,), parsed),
        0 <= k < args.accept@.len(),
        clients.len() == k,
        forall|i: int|
            0 <= i < k ==> parsed_entry((#[trigger] args.accept@[i])@) == Ok::<
                ConfigView,
                ConfigErrorView,
            >(clients[i]),
        forall|i: int, j: int|
            0 <= i < j < k ==> (#[trigger] clients[i]).name != (#[trigger] clients[j]).name,
    ensures
        parsed_entry(args.accept@[k]@) matches Err(bad) ==> {
            &&& parsed matches Err(error)
            &&& error@ == bad
        },
        parsed_entry(args.accept@[k]@) matches Ok(config) ==> (forall|i: int|
            0 <= i < k && (#[trigger] clients[i]).name == config.name ==> {
                &&& parsed matches Err(error)
                &&& error@ == (ConfigErrorView::DuplicateName { name: config.name })
            }),
{
    let entries = args.entries();
    let first = entries.take(k);
    assert forall|i: int| 0 <= i < first.len() implies parsed_entry(#[trigger] first[i]) == Ok::<
        ConfigView,
        ConfigErrorView,
    >(clients[i]) by {
        assert(first[i] == args.accept@[i]@);
    }
    lemma_entries_parse(first, clients);
    let more = entries.take(k + 1);
    assert(more.drop_last() =~= first);
    assert(more.last() == args.accept@[k]@);
    if parsed_entries(more) is Err {
        lemma_error_stays(entries, k + 1);
    }
    if let Ok(config) = parsed_entry(args.accept@[k]@) {
        assert forall|i: int| 0 <= i < k && (#[trigger] clients[i]).name == config.name implies {
            &&& parsed matches Err(error)
            &&& error@ == (ConfigErrorView::DuplicateName { name: config.name })
        } by {
            assert(has_name(clients, config.name));
        }
    }
}

/// References are checked once all entries were read: the first client whose
/// reference is neither "self" nor the name of a client is reported, with both.
pub proof fn law_first_unknown_reference_is_reported(
    configs: &ClientMap,
    checked: Result<(), ConfigError>,
    i: int,
)
    requires
        call_ensures(validate_references, (configs,), checked),
        0 <= i < configs@.len(),
        configs@[i].reference != "self"@,
        forall|j: int|
            0 <= j < configs@.len() ==> (#[trigger] configs@[j]).name != configs@[i].reference,
        forall|k: int| 0 <= k < i ==> is_known(configs@, (#[trigger] configs@[k]).reference),
    ensures
        checked matches Err(error) && error@ == (ConfigErrorView::UnknownReference {
            name: configs@[i].name,
            reference: configs@[i].reference,
        }),
{
    assert(dangles(configs@, i));
    let told = choose|told: int| #[trigger]
        first_dangling(configs@, told) && checked->Err_0@ == dangling_error(configs@, told);
    if told < i {
        assert(is_known(configs@, configs@[told].reference));
    }
}

/// Where every reference is "self" or the name of a client, none is reported.
pub proof fn law_known_references_pass(configs: &ClientMap, checked: Result<(), ConfigError>)
    requires
        call_ensures(validate_references, (configs,), checked),
        forall|k: int|
            0 <= k < configs@.len() ==> is_known(configs@, (#[trigger] configs@[k]).reference),
    ensures
        checked is Ok,
{
    assert forall|k: int| 0 <= k < configs@.len() implies !(#[trigger] dangles(configs@, k)) by {
        assert(is_known(configs@, configs@[k].reference));
    }
}

/// Two clients with the same position beside the same reference are reported by
/// name, if no earlier clients have a place in common; where no two have, none are.
pub proof fn law_first_conflict_is_reported(
    configs: &ClientMap,
    checked: Result<(), ConfigError>,
    first: int,
    second: int,
)
    requires
        call_ensures(validate_positions, (configs,), checked),
        0 <= first < second < configs@.len(),
        configs@[first].reference == configs@[second].reference,
        configs@[first].position == configs@[second].position,
        forall|i: int, j: int|
            0 <= i < j < second ==> (#[trigger] configs@[i]).reference != (
            #[trigger] configs@[j]).reference || configs@[i].position != configs@[j].position,
    ensures
        checked matches Err(error) && error@ == (ConfigErrorView::PositionConflict {
            first: configs@[first].name,
            second: configs@[second].name,
            position: configs@[first].position,
            reference: configs@[first].reference,
        }),
{
    let view = configs@;
    assert(claim_same_place(view, first, second));
    let (a, b) = choose|a: int, b: int| #[trigger]
        first_conflict(view, a, b) && checked->Err_0@ == conflict_error(view, a, b);
    if b < second {
        assert(view[a].reference != view[b].reference || view[a].position != view[b].position);
    } else if b > second {
        assert(!claim_same_place(view.take(b), first, second));
    } else if a < first {
        assert(view[a].reference != view[first].reference || view[a].position
            != view[first].position);
    } else if a > first {
        assert(view[first].reference != view[a].reference || view[first].position
            != view[a].position);
    }
}

/// Where no two clients have the same position beside the same reference, no
/// conflict is reported.
pub proof fn law_differing_places_pass(configs: &ClientMap, checked: Result<(), ConfigError>)
    requires
        call_ensures(validate_positions, (configs,), checked),
        forall|i: int, j: int|
            0 <= i < j < configs@.len() ==> (#[trigger] configs@[i]).reference != (
            #[trigger] configs@[j]).reference || configs@[i].position != configs@[j].position,
    ensures
        checked is Ok,
{
    assert forall|i: int, j: int| 0 <= i < j < configs@.len() implies !(
    #[trigger] claim_same_place(configs@, i, j)) by {
        assert(configs@[i].reference != configs@[j].reference || configs@[i].position
            != configs@[j].position);
    }
}

/// Once all entries were read and their names differ, an unknown reference is what
/// the arguments are refused for, and a conflict is where there is none.
pub proof fn law_read_arguments_are_refused_in_order(
    args: &Args,
    parsed: Result<ClientMap, ConfigError>,
    clients: Seq<ConfigView>,
)
    requires
        call_ensures(Args::parse_client_config, (args,), parsed),
        clients.len() == args.accept@.len(),
        forall|i: int|
            0 <= i < clients.len() ==> parsed_entry((#[trigger] args.accept@[i])@) == Ok::<
                ConfigView,
                ConfigErrorView,
            >(clients[i]),
        forall|i: int, j: int|
            0 <= i < j < clients.len() ==> (#[trigger] clients[i]).name != (
            #[trigger] clients[j]).name,
    ensures
        match parsed {
            Ok(map) => map@ == clients,
            Err(error) => match error@ {
                ConfigErrorView::UnknownReference { name, reference } => {
                    &&& !is_known(clients, reference)
                    &&& exists|i: int|
                        0 <= i < clients.len() && (#[trigger] clients[i]).name == name
                            && clients[i].reference == reference
                },
                ConfigErrorView::PositionConflict { first, second, position, reference } => {
                    &&& exists|i: int, j: int|
                        0 <= i < j < clients.len() && (#[trigger] clients[i]).name == first && (
                        #[trigger] clients[j]).name == second && clients[i].position == position
                            && clients[j].position == position && clients[i].reference == reference
                            && clients[j].reference == reference
                    &&& forall|i: int|
                        0 <= i < clients.len() ==> is_known(
                            clients,
                            (#[trigger] clients[i]).reference,
                        )
                },
                _ => false,
            },
        },
{
    let entries = args.entries();
    assert forall|i: int| 0 <= i < entries.len() implies parsed_entry(#[trigger] entries[i])
        == Ok::<ConfigView, ConfigErrorView>(clients[i]) by {
        assert(entries[i] == args.accept@[i]@);
    }
    lemma_entries_parse(entries, clients);
    if let Err(error) = parsed {
        if !references_exist(clients) {
            let i = choose|i: int| #[trigger]
                first_dangling(clients, i) && error@ == dangling_error(clients, i);
            assert(dangles(clients, i));
            assert(clients[i].name == clients[i].name);
        } else {
            let (i, j) = choose|i: int, j: int| #[trigger]
                first_conflict(clients, i, j) && error@ == conflict_error(clients, i, j);
            assert(claim_same_place(clients, i, j));
            assert(clients[i].name == clients[i].name && clients[j].name == clients[j].name);
            assert forall|i: int| 0 <= i < clients.len() implies is_known(
                clients,
                (#[trigger] clients[i]).reference,
            ) by {
                assert(!dangles(clients, i));
            }
        }
    }
}

/// Nothing but warnings is logged unless more is asked for, and then information,
/// debugging messages and everything, step by step.
pub proof fn law_verbosity_raises_the_log_level(args: &Args, level: log::LevelFilter)
    requires
        call_ensures(Args::get_log_level, (args,), level),
    ensures
        args.verbose == 0 <==> level == log::LevelFilter::Warn,
        args.verbose == 1 <==> level == log::LevelFilter::Info,
        args.verbose == 2 <==> level == log::LevelFilter::Debug,
        args.verbose >= 3 <==> level == log::LevelFilter::Trace,
{
}

/// One entry on its own is read as it is written: the name and the reference are
/// kept letter by letter, and the position is the one that the word between them
/// stands for.
proof fn law_one_entry_is_kept_as_written(
    entry: &str,
    parsed: Result<ClientConfig, ConfigError>,
    name: Seq<char>,
    word: Seq<char>,
    reference: Seq<char>,
)
    requires
        call_ensures(parse_entry, (entry,), parsed),
        !name.contains(':'),
        !word.contains(':'),
        !reference.contains(':'),
        entry@ == written(name, word, reference),
    ensures
        parsed matches Ok(config) ==> {
            &&& config.name@ == name
            &&& config.reference@ == reference
            &&& lowercase(word) == match config.position {
                Position::LeftOf => "leftof"@,
                Position::RightOf => "rightof"@,
                Position::TopOf => "topof"@,
                Position::BottomOf => "bottomof"@,
            }
        },
        parsed is Ok <==> name != "self"@ && (lowercase(word) == "leftof"@ || lowercase(word)
            == "rightof"@ || lowercase(word) == "topof"@ || lowercase(word) == "bottomof"@),
{
    law_entries_are_read_as_written(name, word, reference);
}

/// Once all entries were read and their names differ, the arguments are refused for
/// just what the references are refused for, and for what the positions are refused
/// for where the references pass.
pub proof fn law_arguments_are_checked_like_clients(
    args: &Args,
    parsed: Result<ClientMap, ConfigError>,
    map: &ClientMap,
    references: Result<(), ConfigError>,
    positions: Result<(), ConfigError>,
)
    requires
        call_ensures(Args::parse_client_config, (args,), parsed),
        call_ensures(validate_references, (map,), references),
        call_ensures(validate_positions, (map,), positions),
        map@.len() == args.accept@.len(),
        forall|i: int|
            0 <= i < map@.len() ==> parsed_entry((#[trigger] args.accept@[i])@) == Ok::<
                ConfigView,
                ConfigErrorView,
            >(map@[i]),
        forall|i: int, j: int|
            0 <= i < j < map@.len() ==> (#[trigger] map@[i]).name != (#[trigger] map@[j]).name,
    ensures
        parsed is Ok <==> references is Ok && positions is Ok,
        references matches Err(error) ==> parsed->Err_0@ == error@,
        references is Ok ==> (positions matches Err(error) ==> parsed->Err_0@ == error@),
{
    let configs = map@;
    let entries = args.entries();
    assert forall|i: int| 0 <= i < entries.len() implies parsed_entry(#[trigger] entries[i])
        == Ok::<ConfigView, ConfigErrorView>(configs[i]) by {
        assert(entries[i] == args.accept@[i]@);
    }
    lemma_entries_parse(entries, configs);
    if references is Err {
        let i = choose|i: int| #[trigger]
            first_dangling(configs, i) && references->Err_0@ == dangling_error(configs, i);
        let j = choose|j: int| #[trigger]
            first_dangling(configs, j) && parsed->Err_0@ == dangling_error(configs, j);
        assert(!(i < j) && !(j < i));
    } else if positions is Err {
        let (a, b) = choose|a: int, b: int| #[trigger]
            first_conflict(configs, a, b) && positions->Err_0@ == conflict_error(configs, a, b);
        let (c, d) = choose|c: int, d: int| #[trigger]
            first_conflict(configs, c, d) && parsed->Err_0@ == conflict_error(configs, c, d);
        lemma_first_conflict_is_one(configs, a, b, c, d);
    }
}

/// There is one first conflict at most.
proof fn lemma_first_conflict_is_one(configs: Seq<ConfigView>, a: int, b: int, c: int, d: int)
    requires
        first_conflict(configs, a, b),
        first_conflict(configs, c, d),
    ensures
        a == c,
        b == d,
{
    if b < d {
        assert(!claim_same_place(configs.take(d), a, b));
    } else if d < b {
        assert(!claim_same_place(configs.take(b), c, d));
    } else if a < c {
        assert(!claim_same_place(configs.take(b), a, c));
    } else if c < a {
        assert(!claim_same_place(configs.take(b), c, a));
    }
}

} // verus!
