//! How the configured clients are arranged around the server: the order in which
//! they are handed to the schengen server, so that every client comes after the
//! one it is placed beside.

use crate::config::{
    ClientConfig, ClientMap, ConfigView, Position, claim_same_place, law_name_picks_one_config,
    law_placement_is_one_to_one, names_differ, places_differ,
};
use schengen::server::Builder;
use schengen::server::Position as Placement;
use schengen::server::ServerError;
use vstd::prelude::*;
use vstd::string::*;

verus! {

/// The builder of the schengen server: a port and the clients that may connect.
#[verifier::external_type_specification]
#[verifier::external_body]
pub struct ExBuilder(Builder);

/// The errors of the schengen server.
#[verifier::external_type_specification]
pub struct ExServerError(ServerError);

/// The errors of input and output, which some errors of the schengen server hold.
#[verifier::external_type_specification]
#[verifier::external_body]
pub struct ExIoError(std::io::Error);

/// The errors of the schengen protocol, which some errors of the schengen server
/// hold.
#[verifier::external_type_specification]
#[verifier::external_body]
pub struct ExProtocolError(schengen::protocol::ProtocolError);

/// The clients that a builder of the schengen server holds, in the order in which
/// they were added: name, side, and the client it is placed beside, or none for
/// the server.
pub uninterp spec fn builder_clients(builder: Builder) -> Seq<
    (Seq<char>, Placement, Option<Seq<char>>),
>;

/// The port that a builder of the schengen server was given.
pub uninterp spec fn builder_port(builder: Builder) -> u16;

/// Whether the client at `i` is on that side of that reference.
pub open spec fn occupies(
    clients: Seq<(Seq<char>, Placement, Option<Seq<char>>)>,
    i: int,
    side: Placement,
    reference: Option<Seq<char>>,
) -> bool {
    clients[i].1 == side && clients[i].2 == reference
}

/// Whether the client at `i` is the first on that side of that reference.
pub open spec fn first_occupant(
    clients: Seq<(Seq<char>, Placement, Option<Seq<char>>)>,
    i: int,
    side: Placement,
    reference: Option<Seq<char>>,
) -> bool {
    &&& 0 <= i < clients.len()
    &&& occupies(clients, i, side, reference)
    &&& forall|j: int| 0 <= j < i ==> !(#[trigger] occupies(clients, j, side, reference))
}

/// Whether no client is on that side of that reference.
pub open spec fn vacant(
    clients: Seq<(Seq<char>, Placement, Option<Seq<char>>)>,
    side: Placement,
    reference: Option<Seq<char>>,
) -> bool {
    forall|i: int|
        0 <= i < clients.len() ==> !(#[trigger] occupies(clients, i, side, reference))
}

/// Whether one of the clients has that name.
pub open spec fn is_client(
    clients: Seq<(Seq<char>, Placement, Option<Seq<char>>)>,
    name: Seq<char>,
) -> bool {
    exists|i: int| 0 <= i < clients.len() && (#[trigger] clients[i]).0 == name
}

/// Whether the error says that this side of the reference is taken by the client
/// of that name.
pub open spec fn says_taken(
    error: ServerError,
    side: Placement,
    reference: Option<Seq<char>>,
    occupant: Seq<char>,
) -> bool {
    match error {
        ServerError::ServerPositionOccupied { position, existing_client } => {
            &&& reference is None
            &&& position == side
            &&& existing_client@ == occupant
        },
        ServerError::RelativePositionOccupied { position, relative_to, existing_client } => {
            &&& reference == Some(relative_to@)
            &&& position == side
            &&& existing_client@ == occupant
        },
        _ => false,
    }
}

/// Whether the error says that this side of the reference is taken by the first
/// client there.
pub open spec fn refuses(
    error: ServerError,
    clients: Seq<(Seq<char>, Placement, Option<Seq<char>>)>,
    side: Placement,
    reference: Option<Seq<char>>,
) -> bool {
    exists|i: int| #[trigger]
        first_occupant(clients, i, side, reference) && says_taken(
            error,
            side,
            reference,
            clients[i].0,
        )
}

/// A new builder of the schengen server for a port.
///
/// Calls `schengen::server::Builder::new` and `Builder::port`. Claimed is that
/// the builder holds no clients and the given port.
#[verifier::external_body]
fn new_builder(port: u16) -> (builder: Builder)
    ensures
        builder_clients(builder).len() == 0,
        builder_port(builder) == port,
{
    Builder::new().port(port)
}

/// Add a client beside the server.
///
/// Calls `schengen::server::Builder::add_client` with a client made by
/// `ClientBuilder`. Claimed is that the client is added last, unless a client is
/// on that side of the server already; then the error names the first such.
#[verifier::external_body]
fn add_beside_server(builder: Builder, name: &str, side: Placement) -> (added: Result<
    Builder,
    ServerError,
>)
    ensures
        match added {
            Ok(longer) => {
                &&& vacant(builder_clients(builder), side, None)
                &&& builder_clients(longer) == builder_clients(builder).push((name@, side, None))
                &&& builder_port(longer) == builder_port(builder)
            },
            Err(error) => refuses(error, builder_clients(builder), side, None),
        },
{
    builder.add_client(schengen::server::ClientBuilder::new(name).position(side).build())
}

/// Add a client beside another client.
///
/// Calls `schengen::server::Builder::add_client` with a client made by
/// `ClientBuilder`, whose `relative_to` panics where the two names are the same.
/// Of the other client only the name is looked at. Claimed is that the client is
/// added last, if the other one was added before and no client is on that side of
/// it; otherwise the error says which of the two is amiss, and names the first
/// client on that side.
#[verifier::external_body]
fn add_beside_client(
    builder: Builder,
    name: &str,
    side: Placement,
    reference: &str,
    reference_side: Placement,
) -> (added: Result<Builder, ServerError>)
    requires
        name@ != reference@,
    ensures
        match added {
            Ok(longer) => {
                &&& is_client(builder_clients(builder), reference@)
                &&& vacant(builder_clients(builder), side, Some(reference@))
                &&& builder_clients(longer) == builder_clients(builder).push(
                    (name@, side, Some(reference@)),
                )
                &&& builder_port(longer) == builder_port(builder)
            },
            Err(error) => if is_client(builder_clients(builder), reference@) {
                refuses(error, builder_clients(builder), side, Some(reference@))
            } else {
                error matches ServerError::RelativeClientNotFound(missing) && missing@
                    == reference@
            },
        },
{
    let other = schengen::server::ClientBuilder::new(reference).position(reference_side).build();
    builder.add_client(
        schengen::server::ClientBuilder::new(name).position(side).relative_to(&other).build(),
    )
}

/// What the builder holds of a configured client.
pub open spec fn entry_of(config: ConfigView) -> (Seq<char>, Placement, Option<Seq<char>>) {
    (
        config.name,
        config.position.placement(),
        if config.beside_server() {
            None
        } else {
            Some(config.reference)
        },
    )
}

/// What the builder holds once the clients at these indices were added.
pub open spec fn entries_of(configs: Seq<ConfigView>, order: Seq<int>) -> Seq<
    (Seq<char>, Placement, Option<Seq<char>>),
> {
    order.map_values(|i: int| entry_of(configs[i]))
}

/// Whether the client at `j` is the one that the client at `i` is placed beside.
pub open spec fn refers_to(configs: Seq<ConfigView>, i: int, j: int) -> bool {
    &&& 0 <= j < configs.len()
    &&& !configs[i].beside_server()
    &&& configs[j].name == configs[i].reference
}

/// Whether the references lead from the client at `i` to the server in at most
/// `steps` steps.
pub open spec fn reaches_within(configs: Seq<ConfigView>, i: int, steps: nat) -> bool
    decreases steps,
{
    ||| configs[i].beside_server()
    ||| steps > 0 && exists|j: int| #[trigger]
        refers_to(configs, i, j) && reaches_within(configs, j, (steps - 1) as nat)
}

/// Whether the references lead from the client at `i` to the server.
pub open spec fn reaches_server(configs: Seq<ConfigView>, i: int) -> bool {
    exists|steps: nat| #[trigger] reaches_within(configs, i, steps)
}

/// Whether the references lead from every client to the server.
pub open spec fn all_reach_server(configs: Seq<ConfigView>) -> bool {
    forall|i: int| 0 <= i < configs.len() ==> #[trigger] reaches_server(configs, i)
}

/// Whether the clients at `i` and `j`, from which references lead to the server,
/// claim the same side of the same reference.
pub open spec fn collide(configs: Seq<ConfigView>, i: int, j: int) -> bool {
    &&& 0 <= i < configs.len()
    &&& 0 <= j < configs.len()
    &&& i != j
    &&& reaches_server(configs, i)
    &&& reaches_server(configs, j)
    &&& claim_same_place(configs, i, j)
}

/// Whether two clients collide.
pub open spec fn any_collide(configs: Seq<ConfigView>) -> bool {
    exists|i: int, j: int| #[trigger] collide(configs, i, j)
}

/// Whether the clients can be added in this order: each once, those beside the
/// server first, and every other after the client it is placed beside.
pub open spec fn is_order(configs: Seq<ConfigView>, order: Seq<int>) -> bool {
    &&& forall|k: int| 0 <= k < order.len() ==> 0 <= #[trigger] order[k] < configs.len()
    &&& order.no_duplicates()
    &&& forall|j: int, k: int|
        0 <= j < k < order.len() && configs[#[trigger] order[k]].beside_server()
            ==> configs[#[trigger] order[j]].beside_server()
    &&& forall|k: int|
        0 <= k < order.len() ==> configs[#[trigger] order[k]].beside_server() || exists|j: int|
            0 <= j < k && refers_to(configs, order[k], #[trigger] order[j])
}

/// Whether `builder` holds all of the clients, in an order in which they can be
/// added.
pub open spec fn holds_all(builder: Builder, configs: Seq<ConfigView>) -> bool {
    exists|order: Seq<int>| #[trigger]
        is_order(configs, order) && order.len() == configs.len() && builder_clients(builder)
            == entries_of(configs, order)
}

/// Why the clients could not be arranged.
pub enum LayoutError {
    /// The schengen server refused a client.
    AddClient { name: String, error: ServerError },
    /// From some client the references do not lead to the server.
    CircularReference,
}

impl LayoutError {
    /// Whether this is what is wrong with the clients.
    pub open spec fn explains(self, configs: Seq<ConfigView>) -> bool {
        match self {
            LayoutError::AddClient { name, error } => exists|i: int, j: int| #[trigger]
                collide(configs, i, j) && name@ == configs[j].name && says_taken(
                    error,
                    entry_of(configs[j]).1,
                    entry_of(configs[j]).2,
                    configs[i].name,
                ),
            LayoutError::CircularReference => !any_collide(configs) && !all_reach_server(configs),
        }
    }

    /// The message shown to the user.
    pub open spec fn message_text(self) -> Seq<char> {
        match self {
            LayoutError::AddClient { name, .. } => "Failed to add client '"@ + name@ + "'"@,
            LayoutError::CircularReference =>
                "Circular client reference detected or missing reference client"@,
        }
    }

    /// The message shown to the user.
    pub fn message(&self) -> (message: String)
        ensures
            message@ == self.message_text(),
    {
        match self {
            LayoutError::AddClient { name, .. } => "Failed to add client '".to_owned().concat(
                name.as_str(),
            ).concat("'"),
            LayoutError::CircularReference =>
                "Circular client reference detected or missing reference client".to_owned(),
        }
    }
}

/// The indices of a vector as integers.
pub open spec fn indices(order: Seq<usize>) -> Seq<int> {
    order.map_values(|i: usize| i as int)
}

/// Whether the clients at the indices were added, without any two that collide.
#[verifier::opaque]
spec fn arranged(configs: Seq<ConfigView>, order: Seq<int>, builder: Builder, port: u16) -> bool {
    &&& is_order(configs, order)
    &&& builder_clients(builder) == entries_of(configs, order)
    &&& builder_port(builder) == port
    &&& forall|k: int| 0 <= k < order.len() ==> reaches_server(configs, #[trigger] order[k])
    &&& forall|j: int, k: int|
        0 <= j < order.len() && 0 <= k < order.len() && j != k
            ==> !claim_same_place(
            configs,
            #[trigger] order[j],
            #[trigger] order[k],
        )
}

/// What holds of clients that were added.
proof fn lemma_arranged_facts(
    configs: Seq<ConfigView>,
    order: Seq<int>,
    builder: Builder,
    port: u16,
)
    requires
        arranged(configs, order, builder, port),
    ensures
        is_order(configs, order),
        builder_clients(builder) == entries_of(configs, order),
        builder_port(builder) == port,
        forall|k: int| 0 <= k < order.len() ==> reaches_server(configs, #[trigger] order[k]),
{
    reveal(arranged);
}

/// A client that is refused collides with the one that has its place.
proof fn lemma_refusal_explains(
    configs: Seq<ConfigView>,
    order: Seq<int>,
    builder: Builder,
    port: u16,
    i: int,
    error: ServerError,
)
    requires
        arranged(configs, order, builder, port),
        0 <= i < configs.len(),
        !order.contains(i),
        reaches_server(configs, i),
        refuses(
            error,
            builder_clients(builder),
            entry_of(configs[i]).1,
            entry_of(configs[i]).2,
        ),
    ensures
        exists|j: int| #[trigger]
            collide(configs, j, i) && says_taken(
                error,
                entry_of(configs[i]).1,
                entry_of(configs[i]).2,
                configs[j].name,
            ),
{
    lemma_arranged_facts(configs, order, builder, port);
    let clients = builder_clients(builder);
    let (_, side, beside) = entry_of(configs[i]);
    let k = choose|k: int| #[trigger]
        first_occupant(clients, k, side, beside) && says_taken(error, side, beside, clients[k].0);
    let j = order[k];
    assert(clients[k] == entry_of(configs[j]));
    assert(order.contains(j));
    law_placement_is_one_to_one(configs[i].position, configs[j].position);
    assert(collide(configs, j, i));
}

/// Adding one more client keeps the clients arranged.
proof fn lemma_arranged_grows(
    configs: Seq<ConfigView>,
    order: Seq<int>,
    i: int,
    builder: Builder,
    longer: Builder,
    port: u16,
)
    requires
        arranged(configs, order, builder, port),
        0 <= i < configs.len(),
        !order.contains(i),
        reaches_server(configs, i),
        configs[i].beside_server() ==> forall|k: int|
            0 <= k < order.len() ==> configs[#[trigger] order[k]].beside_server(),
        !configs[i].beside_server() ==> exists|j: int|
            0 <= j < order.len() && refers_to(configs, i, #[trigger] order[j]),
        vacant(builder_clients(builder), entry_of(configs[i]).1, entry_of(configs[i]).2),
        builder_clients(longer) == builder_clients(builder).push(entry_of(configs[i])),
        builder_port(longer) == port,
    ensures
        arranged(configs, order.push(i), longer, port),
{
    reveal(arranged);
    let grown = order.push(i);
    let last = order.len() as int;
    assert(grown[last] == i);
    assert(forall|k: int| 0 <= k < last ==> grown[k] == order[k]);
    assert(entries_of(configs, grown) =~= entries_of(configs, order).push(entry_of(configs[i])));
    assert(grown.no_duplicates()) by {
        assert forall|j: int, k: int| 0 <= j < k < grown.len() implies grown[j] != grown[k] by {
            assert(order.contains(order[j]));
        }
    }
    assert forall|k: int| 0 <= k < grown.len() implies configs[#[trigger] grown[k]].beside_server()
        || exists|j: int| 0 <= j < k && refers_to(configs, grown[k], #[trigger] grown[j]) by {
        if !configs[grown[k]].beside_server() {
            if k < last {
                let j = choose|j: int|
                    0 <= j < k && refers_to(configs, order[k], #[trigger] order[j]);
                assert(refers_to(configs, grown[k], grown[j]));
            } else {
                let j = choose|j: int|
                    0 <= j < order.len() && refers_to(configs, i, #[trigger] order[j]);
                assert(refers_to(configs, grown[k], grown[j]));
            }
        }
    }
    assert forall|k: int| 0 <= k < last implies !claim_same_place(
        configs,
        #[trigger] order[k],
        i,
    ) && !claim_same_place(configs, i, order[k]) by {
        assert(entries_of(configs, order)[k] == entry_of(configs[order[k]]));
        assert(!occupies(
            builder_clients(builder),
            k,
            entry_of(configs[i]).1,
            entry_of(configs[i]).2,
        ));
    }
    assert forall|j: int, k: int|
        0 <= j < grown.len() && 0 <= k < grown.len() && j != k implies !claim_same_place(
        configs,
        #[trigger] grown[j],
        #[trigger] grown[k],
    ) by {
        if j < last && k < last {
            assert(!claim_same_place(configs, order[j], order[k]));
        }
    }
}

/// Add a client to the builder, beside the server or beside the client that it
/// refers to.
fn add_client(builder: Builder, config: &ClientConfig, reference: Option<&ClientConfig>) -> (added:
    Result<Builder, ServerError>)
    requires
        match reference {
            None => config@.beside_server(),
            Some(other) => {
                &&& !config@.beside_server()
                &&& other@.name == config@.reference
                &&& other@.name != config@.name
                &&& is_client(builder_clients(builder), other@.name)
            },
        },
    ensures
        match added {
            Ok(longer) => {
                &&& vacant(builder_clients(builder), entry_of(config@).1, entry_of(config@).2)
                &&& builder_clients(longer) == builder_clients(builder).push(entry_of(config@))
                &&& builder_port(longer) == builder_port(builder)
            },
            Err(error) => refuses(
                error,
                builder_clients(builder),
                entry_of(config@).1,
                entry_of(config@).2,
            ),
        },
{
    match reference {
        None => add_beside_server(builder, config.name.as_str(), config.position.to_schengen()),
        Some(other) => add_beside_client(
            builder,
            config.name.as_str(),
            config.position.to_schengen(),
            other.name.as_str(),
            other.position.to_schengen(),
        ),
    }
}

/// The client of that name among those at the indices.
fn find_client<'a>(values: &'a Vec<ClientConfig>, order: &Vec<usize>, name: &str) -> (found: Option<
    &'a ClientConfig,
>)
    requires
        forall|k: int| 0 <= k < order@.len() ==> (#[trigger] order@[k]) < values@.len(),
    ensures
        match found {
            Some(config) => config@.name == name@ && exists|k: int|
                0 <= k < order@.len() && values@[#[trigger] order@[k] as int] == config,
            None => forall|k: int|
                0 <= k < order@.len() ==> values@[#[trigger] order@[k] as int]@.name != name@,
        },
{
    let mut k: usize = 0;
    while k < order.len()
        invariant
            forall|k: int| 0 <= k < order@.len() ==> (#[trigger] order@[k]) < values@.len(),
            k <= order@.len(),
            forall|j: int| 0 <= j < k ==> values@[#[trigger] order@[j] as int]@.name != name@,
        decreases order@.len() - k,
    {
        let config = &values[order[k]];
        if crate::text::same_text(config.name.as_str(), name) {
            assert(values@[order@[k as int] as int] == config);
            return Some(config);
        }
        k = k + 1;
    }
    None
}

/// Arrange the clients around a server on the given port.
///
/// The clients beside the server are added first. The others follow once the
/// client they are placed beside was added; that may take several passes, where
/// clients refer to each other in a chain.
pub fn arrange_clients(port: u16, client_configs: &ClientMap) -> (arranged: Result<
    Builder,
    LayoutError,
>)
    ensures
        match arranged {
            Ok(builder) => {
                &&& builder_port(builder) == port
                &&& holds_all(builder, client_configs@)
                &&& all_reach_server(client_configs@)
                &&& !any_collide(client_configs@)
            },
            Err(error) => error.explains(client_configs@),
        },
{
    proof {
        use_type_invariant(client_configs);
    }
    let values = client_configs.values();
    let ghost configs = client_configs@;
    let mut builder = new_builder(port);
    let mut order: Vec<usize> = Vec::new();
    let mut placed: Vec<bool> = Vec::new();
    proof {
        reveal(arranged);
        assert(builder_clients(builder) =~= entries_of(configs, indices(order@)));
    }
    let mut i: usize = 0;
    while i < values.len()
        invariant
            configs == client_configs@,
            values@.map_values(|config: ClientConfig| config@) == configs,
            i <= values@.len(),
            placed@.len() == i,
            arranged(configs, indices(order@), builder, port),
            forall|j: int|
                0 <= j < i ==> #[trigger] placed@[j] == configs[j].beside_server(),
            forall|j: int|
                0 <= j < i ==> #[trigger] placed@[j] == indices(order@).contains(j),
            forall|k: int|
                0 <= k < order@.len() ==> (#[trigger] indices(order@)[k]) < i
                    && configs[indices(order@)[k]].beside_server(),
        decreases values@.len() - i,
    {
        let config = &values[i];
        let ghost before = indices(order@);
        assert(configs[i as int] == config@);
        if config.is_beside_server() {
            proof {
                assert(reaches_within(configs, i as int, 0));
                assert(!before.contains(i as int));
            }
            let ghost was = builder;
            match add_client(builder, config, None) {
                Ok(longer) => {
                    builder = longer;
                },
                Err(error) => {
                    proof {
                        lemma_refusal_explains(configs, before, was, port, i as int, error);
                    }
                    return Err(LayoutError::AddClient { name: config.name.clone(), error });
                },
            }
            order.push(i);
            placed.push(true);
            proof {
                lemma_arranged_facts(configs, before, was, port);
                lemma_arranged_grows(configs, before, i as int, was, builder, port);
                assert(indices(order@) =~= before.push(i as int));
                lemma_contains_after_push(before, i as int);
            }
        } else {
            placed.push(false);
            assert(!before.contains(i as int));
        }
        i = i + 1;
    }
    assert forall|j: int|
        0 <= j < configs.len() && (#[trigger] configs[j]).beside_server() implies indices(
        order@,
    ).contains(j) by {
        assert(placed@[j]);
    }
    while order.len() < values.len()
        invariant
            configs == client_configs@,
            names_differ(configs),
            values@.map_values(|config: ClientConfig| config@) == configs,
            placed@.len() == values@.len(),
            arranged(configs, indices(order@), builder, port),
            forall|j: int|
                0 <= j < configs.len() ==> #[trigger] placed@[j] == indices(order@).contains(j),
            forall|j: int|
                0 <= j < configs.len() && (#[trigger] configs[j]).beside_server() ==> indices(
                    order@,
                ).contains(j),
        decreases values@.len() - order@.len(),
    {
        let mut progress = false;
        let ghost start = order@.len();
        let mut i: usize = 0;
        while i < values.len()
            invariant
                configs == client_configs@,
                names_differ(configs),
                values@.map_values(|config: ClientConfig| config@) == configs,
                i <= values@.len(),
                placed@.len() == values@.len(),
                arranged(configs, indices(order@), builder, port),
                forall|j: int|
                    0 <= j < configs.len() ==> #[trigger] placed@[j] == indices(order@).contains(
                        j,
                    ),
                forall|j: int|
                    0 <= j < configs.len() && (#[trigger] configs[j]).beside_server() ==> indices(
                        order@,
                    ).contains(j),
                progress ==> order@.len() > start,
                !progress ==> order@.len() == start,
                !progress ==> forall|j: int, k: int|
                    0 <= j < i && !indices(order@).contains(j) && 0 <= k < order@.len()
                        ==> !#[trigger] refers_to(configs, j, indices(order@)[k]),
            decreases values@.len() - i,
        {
            let config = &values[i];
            let ghost before = indices(order@);
            assert(configs[i as int] == config@);
            if !placed[i] {
                assert(!before.contains(i as int));
                assert forall|k: int| 0 <= k < order@.len() implies (#[trigger] order@[k])
                    < values@.len() by {
                    lemma_arranged_facts(configs, before, builder, port);
                    assert(before[k] == order@[k]);
                }
                match find_client(values, &order, config.reference.as_str()) {
                    Some(other) => {
                        let ghost was = builder;
                        proof {
                            let k = choose|k: int|
                                0 <= k < order@.len() && values@[#[trigger] order@[k] as int]
                                    == other;
                            lemma_arranged_facts(configs, before, was, port);
                            lemma_next_client(configs, before, i as int, k);
                            assert(configs[before[k]] == other@);
                        }
                        match add_client(builder, config, Some(other)) {
                            Ok(longer) => {
                                builder = longer;
                            },
                            Err(error) => {
                                proof {
                                    lemma_refusal_explains(
                                        configs,
                                        before,
                                        was,
                                        port,
                                        i as int,
                                        error,
                                    );
                                }
                                return Err(
                                    LayoutError::AddClient { name: config.name.clone(), error },
                                );
                            },
                        }
                        order.push(i);
                        placed.set(i, true);
                        progress = true;
                        proof {
                            lemma_arranged_grows(configs, before, i as int, was, builder, port);
                            assert(indices(order@) =~= before.push(i as int));
                            lemma_contains_after_push(before, i as int);
                        }
                    },
                    None => {
                        assert forall|k: int| 0 <= k < order@.len() implies !#[trigger] refers_to(
                            configs,
                            i as int,
                            before[k],
                        ) by {
                            assert(configs[before[k]] == values@[order@[k] as int]@);
                        }
                    },
                }
            }
            i = i + 1;
        }
        if !progress {
            proof {
                lemma_rest_is_cut_off(configs, indices(order@), builder, port);
            }
            return Err(LayoutError::CircularReference);
        }
        proof {
            lemma_arranged_facts(configs, indices(order@), builder, port);
            lemma_order_length(configs, indices(order@));
        }
    }
    proof {
        lemma_all_are_placed(configs, indices(order@), builder, port);
    }
    Ok(builder)
}

/// A client that refers to one that was added can be added.
proof fn lemma_next_client(configs: Seq<ConfigView>, order: Seq<int>, i: int, k: int)
    requires
        names_differ(configs),
        is_order(configs, order),
        forall|k: int| 0 <= k < order.len() ==> reaches_server(configs, #[trigger] order[k]),
        0 <= i < configs.len(),
        !order.contains(i),
        !configs[i].beside_server(),
        0 <= k < order.len(),
        configs[order[k]].name == configs[i].reference,
    ensures
        refers_to(configs, i, order[k]),
        reaches_server(configs, i),
        configs[order[k]].name != configs[i].name,
        is_client(entries_of(configs, order), configs[i].reference),
{
    let j = order[k];
    assert(order.contains(j));
    let steps = choose|steps: nat| #[trigger] reaches_within(configs, j, steps);
    assert(refers_to(configs, i, j));
    assert(reaches_within(configs, i, steps + 1));
    if configs[j].name == configs[i].name {
        law_name_picks_one_config(configs, i, j);
    }
    assert(entries_of(configs, order)[k] == entry_of(configs[j]));
}

/// Where the clients beside the server were added, and no other refers to one
/// that was added, the references lead to the server only from those added.
proof fn lemma_only_added_reach(configs: Seq<ConfigView>, order: Seq<int>, i: int, steps: nat)
    requires
        0 <= i < configs.len(),
        forall|j: int|
            0 <= j < configs.len() && (#[trigger] configs[j]).beside_server() ==> order.contains(j),
        forall|j: int, k: int|
            0 <= j < configs.len() && !order.contains(j) && 0 <= k < order.len()
                ==> !#[trigger] refers_to(configs, j, order[k]),
        reaches_within(configs, i, steps),
    ensures
        order.contains(i),
    decreases steps,
{
    if !configs[i].beside_server() {
        let j = choose|j: int| #[trigger]
            refers_to(configs, i, j) && reaches_within(configs, j, (steps - 1) as nat);
        lemma_only_added_reach(configs, order, j, (steps - 1) as nat);
        let k = choose|k: int| 0 <= k < order.len() && order[k] == j;
        assert(refers_to(configs, i, order[k]));
    }
}

/// An order of some of the clients holds all of them exactly when it is as long.
proof fn lemma_order_length(configs: Seq<ConfigView>, order: Seq<int>)
    requires
        is_order(configs, order),
    ensures
        order.len() <= configs.len(),
        order.len() == configs.len() <==> forall|i: int|
            0 <= i < configs.len() ==> #[trigger] order.contains(i),
{
    let all = vstd::set_lib::set_int_range(0, configs.len() as int);
    vstd::set_lib::lemma_int_range(0, configs.len() as int);
    order.unique_seq_to_set();
    assert(order.to_set().subset_of(all)) by {
        assert forall|i: int| order.to_set().contains(i) implies all.contains(i) by {
            let k = choose|k: int| 0 <= k < order.len() && order[k] == i;
            assert(0 <= order[k] < configs.len());
        }
    }
    vstd::set_lib::lemma_len_subset(order.to_set(), all);
    if order.len() == configs.len() {
        vstd::set_lib::lemma_subset_equality(order.to_set(), all);
        assert forall|i: int| 0 <= i < configs.len() implies #[trigger] order.contains(i) by {
            assert(all.contains(i));
            assert(order.to_set().contains(i));
        }
    }
    if forall|i: int| 0 <= i < configs.len() ==> #[trigger] order.contains(i) {
        assert(all.subset_of(order.to_set()));
        vstd::set_lib::lemma_len_subset(all, order.to_set());
    }
}

/// Among clients that were added no two collide, so that none do where only
/// those reach the server.
proof fn lemma_added_do_not_collide(
    configs: Seq<ConfigView>,
    order: Seq<int>,
    builder: Builder,
    port: u16,
)
    requires
        arranged(configs, order, builder, port),
        forall|i: int|
            0 <= i < configs.len() && #[trigger] reaches_server(configs, i) ==> order.contains(i),
    ensures
        !any_collide(configs),
{
    reveal(arranged);
    assert forall|i: int, j: int| !#[trigger] collide(configs, i, j) by {
        if collide(configs, i, j) {
            let m = choose|m: int| 0 <= m < order.len() && order[m] == i;
            let n = choose|n: int| 0 <= n < order.len() && order[n] == j;
            assert(!claim_same_place(configs, order[m], order[n]));
        }
    }
}

/// Where no client is left that refers to one that was added, the references
/// do not lead from those left to the server.
proof fn lemma_rest_is_cut_off(
    configs: Seq<ConfigView>,
    order: Seq<int>,
    builder: Builder,
    port: u16,
)
    requires
        arranged(configs, order, builder, port),
        order.len() < configs.len(),
        forall|j: int|
            0 <= j < configs.len() && (#[trigger] configs[j]).beside_server() ==> order.contains(j),
        forall|j: int, k: int|
            0 <= j < configs.len() && !order.contains(j) && 0 <= k < order.len()
                ==> !#[trigger] refers_to(configs, j, order[k]),
    ensures
        !any_collide(configs),
        !all_reach_server(configs),
{
    reveal(arranged);
    assert forall|i: int|
        0 <= i < configs.len() && #[trigger] reaches_server(configs, i) implies order.contains(
        i,
    ) by {
        let steps = choose|steps: nat| #[trigger] reaches_within(configs, i, steps);
        lemma_only_added_reach(configs, order, i, steps);
    }
    lemma_added_do_not_collide(configs, order, builder, port);
    lemma_order_length(configs, order);
    let left = choose|i: int| 0 <= i < configs.len() && !#[trigger] order.contains(i);
    assert(!reaches_server(configs, left));
}

/// Where all clients were added, they are as they should be.
proof fn lemma_all_are_placed(
    configs: Seq<ConfigView>,
    order: Seq<int>,
    builder: Builder,
    port: u16,
)
    requires
        arranged(configs, order, builder, port),
        order.len() >= configs.len(),
    ensures
        holds_all(builder, configs),
        all_reach_server(configs),
        !any_collide(configs),
{
    reveal(arranged);
    lemma_order_length(configs, order);
    assert forall|i: int| 0 <= i < configs.len() implies #[trigger] reaches_server(configs, i) by {
        assert(order.contains(i));
        let k = choose|k: int| 0 <= k < order.len() && order[k] == i;
        assert(reaches_server(configs, order[k]));
    }
    lemma_added_do_not_collide(configs, order, builder, port);
}

/// What a sequence holds once an element was pushed.
proof fn lemma_contains_after_push(s: Seq<int>, i: int)
    ensures
        forall|j: int| #[trigger] s.push(i).contains(j) <==> s.contains(j) || j == i,
{
    assert forall|j: int| #[trigger] s.push(i).contains(j) <==> s.contains(j) || j == i by {
        if s.contains(j) {
            let k = choose|k: int| 0 <= k < s.len() && s[k] == j;
            assert(s.push(i)[k] == j);
        }
        if j == i {
            assert(s.push(i)[s.len() as int] == j);
        }
        if s.push(i).contains(j) && j != i {
            let k = choose|k: int| 0 <= k < s.push(i).len() && s.push(i)[k] == j;
            assert(s[k] == j);
        }
    }
}

/// Clients that claim different places never collide, so that no error explains
/// them but a circular reference.
pub proof fn law_differing_places_never_collide(configs: Seq<ConfigView>, error: LayoutError)
    requires
        places_differ(configs),
        error.explains(configs),
    ensures
        !any_collide(configs),
        error is CircularReference,
{
    assert forall|i: int, j: int| !#[trigger] collide(configs, i, j) by {
        if collide(configs, i, j) {
            if i < j {
                assert(claim_same_place(configs, i, j));
            } else {
                assert(claim_same_place(configs, j, i));
            }
        }
    }
}

/// From clients that refer only to each other, references never lead to the
/// server.
pub proof fn law_circles_are_cut_off(configs: Seq<ConfigView>, circle: Set<int>, i: int)
    requires
        forall|j: int| #[trigger]
            circle.contains(j) ==> 0 <= j < configs.len() && !configs[j].beside_server(),
        forall|j: int, k: int|
            circle.contains(j) && #[trigger] refers_to(configs, j, k) ==> circle.contains(k),
        circle.contains(i),
    ensures
        !reaches_server(configs, i),
{
    if reaches_server(configs, i) {
        let steps = choose|steps: nat| #[trigger] reaches_within(configs, i, steps);
        lemma_circle_is_cut_off(configs, circle, i, steps);
    }
}

/// From clients that refer only to each other, references do not lead to the
/// server in any number of steps.
proof fn lemma_circle_is_cut_off(configs: Seq<ConfigView>, circle: Set<int>, i: int, steps: nat)
    requires
        forall|j: int| #[trigger]
            circle.contains(j) ==> 0 <= j < configs.len() && !configs[j].beside_server(),
        forall|j: int, k: int|
            circle.contains(j) && #[trigger] refers_to(configs, j, k) ==> circle.contains(k),
        circle.contains(i),
    ensures
        !reaches_within(configs, i, steps),
    decreases steps,
{
    if reaches_within(configs, i, steps) {
        let j = choose|j: int| #[trigger]
            refers_to(configs, i, j) && reaches_within(configs, j, (steps - 1) as nat);
        lemma_circle_is_cut_off(configs, circle, j, (steps - 1) as nat);
    }
}

/// A client placed beside one from which references lead to the server can be
/// placed too.
pub proof fn law_references_chain(configs: Seq<ConfigView>, i: int, j: int)
    requires
        refers_to(configs, i, j),
        reaches_server(configs, j),
    ensures
        reaches_server(configs, i),
{
    let steps = choose|steps: nat| #[trigger] reaches_within(configs, j, steps);
    assert(reaches_within(configs, i, steps + 1));
}

/// Clients from the command line can be arranged, unless references run in
/// circles: no client is refused for its place, and a client from which the
/// references do not lead to the server refers to another such client.
pub proof fn law_accepted_clients_fail_only_in_circles(
    entries: Seq<Seq<char>>,
    configs: Seq<ConfigView>,
    error: LayoutError,
    i: int,
)
    requires
        crate::args::is_client_config(entries, Ok(configs)),
        error.explains(configs),
        0 <= i < configs.len(),
        !reaches_server(configs, i),
    ensures
        error is CircularReference,
        exists|j: int| #[trigger] refers_to(configs, i, j) && !reaches_server(configs, j),
{
    crate::args::law_accepted_configuration(entries, configs);
    law_differing_places_never_collide(configs, error);
    if configs[i].beside_server() {
        assert(reaches_within(configs, i, 0));
    }
    assert(!crate::args::dangles(configs, i));
    let j = choose|j: int|
        0 <= j < configs.len() && (#[trigger] configs[j]).name == configs[i].reference;
    assert(refers_to(configs, i, j));
    if reaches_server(configs, j) {
        law_references_chain(configs, i, j);
    }
}

/// Whether references lead along these clients, one by one, to one that is beside
/// the server.
pub open spec fn leads_to_server(configs: Seq<ConfigView>, chain: Seq<int>) -> bool {
    &&& chain.len() > 0
    &&& forall|k: int| 0 <= k < chain.len() ==> 0 <= #[trigger] chain[k] < configs.len()
    &&& configs[chain.last()].reference == "self"@
    &&& forall|k: int|
        0 <= k < chain.len() - 1 ==> is_placed_beside(configs, #[trigger] chain[k], chain[k + 1])
}

/// Whether the client at `i` is not beside the server, but beside the one at `j`.
pub open spec fn is_placed_beside(configs: Seq<ConfigView>, i: int, j: int) -> bool {
    &&& configs[i].reference != "self"@
    &&& configs[i].reference == configs[j].name
}

/// Whether references lead from the client at `i` to the server.
pub open spec fn is_chained(configs: Seq<ConfigView>, i: int) -> bool {
    exists|chain: Seq<int>| #[trigger] leads_to_server(configs, chain) && chain[0] == i
}

/// Whether the clients at `i` and `j` are two that claim the same side of the same
/// reference, although references lead from both to the server.
pub open spec fn is_contested(configs: Seq<ConfigView>, i: int, j: int) -> bool {
    &&& 0 <= i < configs.len()
    &&& 0 <= j < configs.len()
    &&& i != j
    &&& configs[i].reference == configs[j].reference
    &&& configs[i].position == configs[j].position
    &&& is_chained(configs, i)
    &&& is_chained(configs, j)
}

/// Where references lead to the server in some steps, they lead along a chain.
proof fn lemma_steps_make_a_chain(configs: Seq<ConfigView>, i: int, steps: nat)
    requires
        0 <= i < configs.len(),
        reaches_within(configs, i, steps),
    ensures
        is_chained(configs, i),
    decreases steps,
{
    if configs[i].beside_server() {
        let chain = seq![i];
        assert(leads_to_server(configs, chain));
    } else {
        let j = choose|j: int| #[trigger]
            refers_to(configs, i, j) && reaches_within(configs, j, (steps - 1) as nat);
        lemma_steps_make_a_chain(configs, j, (steps - 1) as nat);
        let rest = choose|rest: Seq<int>| #[trigger]
            leads_to_server(configs, rest) && rest[0] == j;
        let chain = seq![i] + rest;
        assert(chain.last() == rest.last());
        assert forall|k: int| 0 <= k < chain.len() - 1 implies is_placed_beside(
            configs,
            #[trigger] chain[k],
            chain[k + 1],
        ) by {
            if k > 0 {
                assert(is_placed_beside(configs, rest[k - 1], rest[k]));
            }
        }
        assert(leads_to_server(configs, chain));
        assert(chain[0] == i);
    }
}

/// Where references lead along a chain, they lead to the server in as many steps.
proof fn lemma_chain_reaches(configs: Seq<ConfigView>, chain: Seq<int>)
    requires
        leads_to_server(configs, chain),
    ensures
        reaches_within(configs, chain[0], chain.len()),
    decreases chain.len(),
{
    let i = chain[0];
    if chain.len() > 1 {
        let rest = chain.drop_first();
        assert(rest.last() == chain.last());
        assert forall|k: int| 0 <= k < rest.len() - 1 implies is_placed_beside(
            configs,
            #[trigger] rest[k],
            rest[k + 1],
        ) by {
            assert(is_placed_beside(configs, chain[k + 1], chain[k + 2]));
        }
        lemma_chain_reaches(configs, rest);
        assert(is_placed_beside(configs, chain[0], chain[1]));
        assert(refers_to(configs, i, rest[0]));
    }
}

/// References lead to the server exactly where there is a chain.
proof fn lemma_chained_clients_reach(configs: Seq<ConfigView>, i: int)
    requires
        0 <= i < configs.len(),
    ensures
        reaches_server(configs, i) <==> is_chained(configs, i),
{
    if reaches_server(configs, i) {
        let steps = choose|steps: nat| #[trigger] reaches_within(configs, i, steps);
        lemma_steps_make_a_chain(configs, i, steps);
    }
    if is_chained(configs, i) {
        let chain = choose|chain: Seq<int>| #[trigger]
            leads_to_server(configs, chain) && chain[0] == i;
        lemma_chain_reaches(configs, chain);
    }
}

/// Two clients collide exactly where a place is contested.
proof fn lemma_contested_places_collide(configs: Seq<ConfigView>, i: int, j: int)
    ensures
        collide(configs, i, j) <==> is_contested(configs, i, j),
{
    if 0 <= i < configs.len() && 0 <= j < configs.len() {
        lemma_chained_clients_reach(configs, i);
        lemma_chained_clients_reach(configs, j);
    }
}

/// Whether a client in a builder is the configured one: with its
/// name, on its side, and beside its reference, which is none for the server.
pub open spec fn stands_for(
    client: (Seq<char>, Placement, Option<Seq<char>>),
    config: ConfigView,
) -> bool {
    &&& client.0 == config.name
    &&& client.1 == match config.position {
        Position::LeftOf => Placement::Left,
        Position::RightOf => Placement::Right,
        Position::TopOf => Placement::Above,
        Position::BottomOf => Placement::Below,
    }
    &&& client.2 == if config.reference == "self"@ {
        None
    } else {
        Some(config.reference)
    }
}

/// Clients that are arranged are in the builder with the port, as many as are
/// configured, and each stands for a configured one. One that is beside another comes
/// after it, and those beside the server come first.
pub proof fn law_arranged_clients_are_in_the_builder(
    port: u16,
    clients: &ClientMap,
    builder: Builder,
    k: int,
)
    requires
        call_ensures(arrange_clients, (port, clients), Ok(builder)),
        0 <= k < clients@.len(),
    ensures
        builder_port(builder) == port,
        builder_clients(builder).len() == clients@.len(),
        exists|i: int|
            0 <= i < clients@.len() && stands_for(
                builder_clients(builder)[k],
                #[trigger] clients@[i],
            ),
        exists|j: int|
            0 <= j < clients@.len() && stands_for(
                #[trigger] builder_clients(builder)[j],
                clients@[k],
            ),
        builder_clients(builder)[k].2 matches Some(reference) ==> exists|j: int|
            0 <= j < k && (#[trigger] builder_clients(builder)[j]).0 == reference,
        builder_clients(builder)[k].2 is None ==> forall|j: int|
            0 <= j < k ==> (#[trigger] builder_clients(builder)[j]).2 is None,
{
    let configs = clients@;
    let added = builder_clients(builder);
    let order = choose|order: Seq<int>| #[trigger]
        is_order(configs, order) && order.len() == configs.len() && builder_clients(builder)
            == entries_of(configs, order);
    assert(forall|j: int|
        0 <= j < added.len() ==> #[trigger] added[j] == entry_of(configs[order[j]]));
    assert(0 <= order[k] < configs.len());
    assert(stands_for(added[k], configs[order[k]]));
    lemma_order_length(configs, order);
    assert(order.contains(k));
    let place = choose|place: int| 0 <= place < order.len() && order[place] == k;
    assert(stands_for(added[place], configs[k]));
    if added[k].2 is Some {
        assert(!configs[order[k]].beside_server());
        let j = choose|j: int| 0 <= j < k && refers_to(configs, order[k], #[trigger] order[j]);
        assert(added[j].0 == configs[order[j]].name);
    } else {
        assert(configs[order[k]].beside_server());
        assert forall|j: int| 0 <= j < k implies (#[trigger] added[j]).2 is None by {
            assert(configs[order[j]].beside_server());
        }
    }
}

/// Clients are arranged exactly when references lead from every one to the server,
/// and no place is contested.
pub proof fn law_chained_clients_are_arranged(
    port: u16,
    clients: &ClientMap,
    arranged: Result<Builder, LayoutError>,
)
    requires
        call_ensures(arrange_clients, (port, clients), arranged),
    ensures
        arranged is Ok <==> {
            &&& forall|i: int| 0 <= i < clients@.len() ==> #[trigger] is_chained(clients@, i)
            &&& forall|i: int, j: int| !#[trigger] is_contested(clients@, i, j)
        },
{
    let configs = clients@;
    assert forall|i: int| 0 <= i < configs.len() implies reaches_server(configs, i)
        <==> #[trigger] is_chained(configs, i) by {
        lemma_chained_clients_reach(configs, i);
    }
    assert forall|i: int, j: int| #[trigger] is_contested(configs, i, j) <==> collide(
        configs,
        i,
        j,
    ) by {
        lemma_contested_places_collide(configs, i, j);
    }
    if let Err(error) = arranged {
        match error {
            LayoutError::AddClient { name, error } => {
                let (i, j) = choose|i: int, j: int| #[trigger]
                    collide(configs, i, j) && name@ == configs[j].name && says_taken(
                        error,
                        entry_of(configs[j]).1,
                        entry_of(configs[j]).2,
                        configs[i].name,
                    );
                assert(is_contested(configs, i, j));
            },
            LayoutError::CircularReference => {
                let i = choose|i: int| 0 <= i < configs.len() && !#[trigger] reaches_server(
                    configs,
                    i,
                );
                assert(!is_chained(configs, i));
            },
        }
    } else {
        assert forall|i: int| 0 <= i < configs.len() implies #[trigger] is_chained(configs, i) by {
            assert(reaches_server(configs, i));
        }
        assert forall|i: int, j: int| !#[trigger] is_contested(configs, i, j) by {
            assert(!collide(configs, i, j));
        }
    }
}

/// A client that is refused is named, and the error of the schengen server tells the
/// side, the reference and the other client that claims it. The references are
/// blamed only where no place is contested and they do not lead to the server from
/// some client.
pub proof fn law_layout_errors_tell_what_is_wrong(
    port: u16,
    clients: &ClientMap,
    error: LayoutError,
)
    requires
        call_ensures(arrange_clients, (port, clients), Err(error)),
    ensures
        error matches LayoutError::AddClient { name, error } ==> exists|i: int, j: int| #[trigger]
            is_contested(clients@, i, j) && name@ == clients@[j].name && names_the_occupant(
                error,
                clients@[j],
                clients@[i].name,
            ),
        error is CircularReference ==> {
            &&& exists|i: int| 0 <= i < clients@.len() && !#[trigger] is_chained(clients@, i)
            &&& forall|i: int, j: int| !#[trigger] is_contested(clients@, i, j)
        },
{
    let configs = clients@;
    assert forall|i: int, j: int| #[trigger] is_contested(configs, i, j) <==> collide(
        configs,
        i,
        j,
    ) by {
        lemma_contested_places_collide(configs, i, j);
    }
    match error {
        LayoutError::AddClient { name, error } => {
            let (i, j) = choose|i: int, j: int| #[trigger]
                collide(configs, i, j) && name@ == configs[j].name && says_taken(
                    error,
                    entry_of(configs[j]).1,
                    entry_of(configs[j]).2,
                    configs[i].name,
                );
            assert(is_contested(configs, i, j));
            assert(names_the_occupant(error, configs[j], configs[i].name));
        },
        LayoutError::CircularReference => {
            let i = choose|i: int| 0 <= i < configs.len() && !#[trigger] reaches_server(
                configs,
                i,
            );
            lemma_chained_clients_reach(configs, i);
            assert(!is_chained(configs, i));
            assert forall|i: int, j: int| !#[trigger] is_contested(configs, i, j) by {
                assert(!collide(configs, i, j));
            }
        },
    }
}

/// Whether the error tells that the place of that client is taken by the one of that
/// name.
pub open spec fn names_the_occupant(
    error: ServerError,
    config: ConfigView,
    occupant: Seq<char>,
) -> bool {
    match error {
        ServerError::ServerPositionOccupied { position, existing_client } => {
            &&& config.reference == "self"@
            &&& existing_client@ == occupant
            &&& stands_for((config.name, position, None), config)
        },
        ServerError::RelativePositionOccupied { position, relative_to, existing_client } => {
            &&& config.reference != "self"@
            &&& config.reference == relative_to@
            &&& existing_client@ == occupant
            &&& stands_for((config.name, position, Some(relative_to@)), config)
        },
        _ => false,
    }
}

/// The message names the client that was refused, in quotes, or tells of the
/// references.
pub proof fn law_layout_messages_name_the_client(error: &LayoutError, message: String)
    requires
        call_ensures(LayoutError::message, (error,), message),
    ensures
        error matches LayoutError::AddClient { name, .. } ==> message@ == "Failed to add client '"@
            + name@ + "'"@,
        error is CircularReference ==> message@
            == "Circular client reference detected or missing reference client"@,
{
}

} // verus!
