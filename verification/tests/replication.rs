use lightyear::authority::{AuthorityManager, AuthorityPeer, HasAuthority};
use lightyear::codec::ComponentValue;
use lightyear::entity_map::EntityMap;
use lightyear::events::{
    ComponentInsertEvent, ComponentRemoveEvent, ComponentUpdateEvent, EntityDespawnEvent,
    EntitySpawnEvent, InputEvent, MessageEvent,
};
use lightyear::id::{ClientId, Entity};
use lightyear::interp::{InterpolationBuffer, PositionSnapshot};
use lightyear::network_target::NetworkTarget;
use lightyear::receive::{apply_component_update, translate_value, ObjectStore, ReplicationReceiver};
use lightyear::replication::{
    ControlledBy, PrePredicted, Replicate, ReplicateHierarchy, ReplicationGroup,
    ReplicationGroupId, ReplicationTarget, TargetEntity, VisibilityMode,
};
use lightyear::messages::GroupKind;
use lightyear::send::ReplicationSender;
use lightyear::tick::Tick;

const POSITION: u64 = 1;

fn client(id: u64) -> AuthorityPeer {
    AuthorityPeer::Client(ClientId::Netcode(id))
}

#[test]
fn test_transfer_authority_server_to_client() {
    // Server-side view of one replicated entity.
    let mut authority = AuthorityManager::new(AuthorityPeer::Server);
    let entity = Entity(1);
    // Entities start under server authority: the server simulates.
    assert_eq!(authority.authority_of(entity), AuthorityPeer::Server);
    assert!(authority.has_authority(entity));

    // Transfer authority from server to the client.
    authority.transfer(entity, client(10));
    assert_eq!(authority.authority_of(entity), client(10));
    assert!(!authority.has_authority(entity));

    // Transfer authority away entirely.
    authority.transfer(entity, AuthorityPeer::Nobody);
    assert_eq!(authority.authority_of(entity), AuthorityPeer::Nobody);
    assert!(!authority.has_authority(entity));
}

#[test]
fn test_ignore_updates_from_non_authority() {
    // Server receives updates for an entity it holds authority over: the
    // client's update must not land.
    let mut authority = AuthorityManager::new(AuthorityPeer::Server);
    let entity = Entity(3);
    let mut store = ObjectStore::new();
    store.set_component(entity, POSITION, ComponentValue::Scalar(1));

    authority.transfer(entity, AuthorityPeer::Server);
    let applied = apply_component_update(
        &mut store,
        &authority,
        &client(10),
        entity,
        POSITION,
        ComponentValue::Scalar(2),
    );
    assert!(!applied);
    assert_eq!(store.get_component(entity, POSITION), Some(ComponentValue::Scalar(1)));
}

#[test]
fn test_receive_updates_from_transferred_authority_client_to_server() {
    // An entity under client authority: the server accepts the client's
    // updates, then stops accepting them after taking authority back.
    let mut authority = AuthorityManager::new(AuthorityPeer::Server);
    let entity = Entity(4);
    let mut store = ObjectStore::new();

    authority.transfer(entity, client(10));
    let applied = apply_component_update(
        &mut store,
        &authority,
        &client(10),
        entity,
        POSITION,
        ComponentValue::Scalar(7),
    );
    assert!(applied);
    assert_eq!(store.get_component(entity, POSITION), Some(ComponentValue::Scalar(7)));

    authority.transfer(entity, AuthorityPeer::Server);
    let applied = apply_component_update(
        &mut store,
        &authority,
        &client(10),
        entity,
        POSITION,
        ComponentValue::Scalar(8),
    );
    assert!(!applied);
    assert_eq!(store.get_component(entity, POSITION), Some(ComponentValue::Scalar(7)));
}

#[test]
fn test_receive_updates_from_transferred_authority_client_to_client() {
    // After a transfer from client 1 to client 2, updates from the new
    // holder land and updates from the old holder are rejected.
    let mut authority = AuthorityManager::new(AuthorityPeer::Server);
    let entity = Entity(5);
    let mut store = ObjectStore::new();

    authority.transfer(entity, client(1));
    assert!(apply_component_update(
        &mut store,
        &authority,
        &client(1),
        entity,
        POSITION,
        ComponentValue::Scalar(1),
    ));

    authority.transfer(entity, client(2));
    assert!(!apply_component_update(
        &mut store,
        &authority,
        &client(1),
        entity,
        POSITION,
        ComponentValue::Scalar(99),
    ));
    assert!(apply_component_update(
        &mut store,
        &authority,
        &client(2),
        entity,
        POSITION,
        ComponentValue::Scalar(2),
    ));
    assert_eq!(store.get_component(entity, POSITION), Some(ComponentValue::Scalar(2)));
}

#[test]
fn test_transfer_authority_with_interpolation() {
    // An interpolated entity keeps interpolating across an authority
    // transfer: the buffer only sees confirmed snapshots, whoever wrote
    // them.
    let mut authority = AuthorityManager::new(client(2));
    let entity = Entity(6);
    let mut buf = InterpolationBuffer::new();

    authority.transfer(entity, client(1));
    buf.push(PositionSnapshot { tick: Tick(10), x: 0, y: 0 });
    authority.transfer(entity, client(2));
    assert!(authority.has_authority(entity));
    buf.push(PositionSnapshot { tick: Tick(20), x: 10, y: 0 });
    assert_eq!(buf.at(Tick(15)), Some((5, 0)));
}

#[test]
fn authority_peer_defaults_to_server() {
    assert_eq!(AuthorityPeer::default(), AuthorityPeer::Server);
    let _marker = HasAuthority;
}

#[test]
fn entity_map_is_bidirectional() {
    let mut map = EntityMap::new();
    assert_eq!(map.len(), 0);
    map.insert(Entity(100), Entity(1));
    map.insert(Entity(200), Entity(2));
    assert_eq!(map.get_local(Entity(100)), Some(Entity(1)));
    assert_eq!(map.get_remote(Entity(2)), Some(Entity(200)));
    assert_eq!(map.get_local(Entity(300)), None);
    map.remove_by_remote(Entity(100));
    assert_eq!(map.get_local(Entity(100)), None);
    assert_eq!(map.get_local(Entity(200)), Some(Entity(2)));
}

#[test]
fn receiver_spawns_local_entities_once() {
    let mut recv = ReplicationReceiver::new(1000);
    let (local_a, spawned_a) = recv.local_for_remote(Entity(7));
    assert!(spawned_a);
    assert_eq!(local_a, Entity(1000));
    let (local_b, spawned_b) = recv.local_for_remote(Entity(8));
    assert!(spawned_b);
    assert_eq!(local_b, Entity(1001));
    let (again, spawned_again) = recv.local_for_remote(Entity(7));
    assert!(!spawned_again);
    assert_eq!(again, local_a);
}

#[test]
fn entity_references_are_translated_through_the_map() {
    let mut recv = ReplicationReceiver::new(0);
    let (local, _) = recv.local_for_remote(Entity(500));
    // A payload referring to remote entity 500 is rewritten to the local
    // handle before it is stored.
    let translated = translate_value(&recv.map, &ComponentValue::EntityRef(Entity(500)));
    assert_eq!(translated, Some(ComponentValue::EntityRef(local)));
    // A reference to an entity we have not seen yet cannot be resolved.
    assert_eq!(translate_value(&recv.map, &ComponentValue::EntityRef(Entity(999))), None);
    // Values without references pass through unchanged.
    assert_eq!(
        translate_value(&recv.map, &ComponentValue::Scalar(5)),
        Some(ComponentValue::Scalar(5))
    );
}

#[test]
fn network_target_membership() {
    let a = ClientId::Netcode(1);
    let b = ClientId::Netcode(2);
    assert!(NetworkTarget::All.targets(&a));
    assert!(!NetworkTarget::Nobody.targets(&a));
    assert!(NetworkTarget::Single(a).targets(&a));
    assert!(!NetworkTarget::Single(a).targets(&b));
    assert!(NetworkTarget::AllExceptSingle(b).targets(&a));
    assert!(!NetworkTarget::AllExceptSingle(a).targets(&a));
    assert!(NetworkTarget::Only(vec![a, b]).targets(&b));
    assert!(!NetworkTarget::Only(vec![b]).targets(&a));
    assert!(NetworkTarget::AllExcept(vec![b]).targets(&a));
    assert!(!NetworkTarget::AllExcept(vec![b]).targets(&b));
}

#[test]
fn controlled_by_targets_client() {
    let controlled = ControlledBy { target: NetworkTarget::Single(ClientId::Netcode(3)) };
    assert!(controlled.targets(&ClientId::Netcode(3)));
    assert!(!controlled.targets(&ClientId::Netcode(4)));
    let replicate = Replicate {
        controlled_by: ControlledBy { target: NetworkTarget::All },
        ..Replicate::default()
    };
    assert!(replicate.is_controlled_by(&ClientId::Netcode(9)));
}

#[test]
fn replication_group_ids() {
    let by_entity = ReplicationGroup::new_from_entity();
    assert_eq!(by_entity.group_id(Some(Entity(77))), ReplicationGroupId(77));
    let fixed = ReplicationGroup::new_id(5).set_priority(9);
    assert_eq!(fixed.group_id(None), ReplicationGroupId(5));
    assert_eq!(fixed.priority(), 9);
    let rekeyed = by_entity.set_id(6);
    assert_eq!(rekeyed.group_id(None), ReplicationGroupId(6));
    assert_eq!(ReplicationGroup::default().priority(), 1);
}

#[test]
fn replication_component_defaults() {
    let target = ReplicationTarget::default();
    assert!(matches!(target.replication, NetworkTarget::All));
    assert!(matches!(target.prediction, NetworkTarget::Nobody));
    assert!(matches!(target.interpolation, NetworkTarget::Nobody));
    assert!(matches!(TargetEntity::default(), TargetEntity::Spawn));
    assert!(ReplicateHierarchy::default().recursive);
    assert!(matches!(VisibilityMode::default(), VisibilityMode::All));
    assert_eq!(PrePredicted::default().client_entity, None);
    let client_cfg = lightyear::client::config::ReplicationConfig::default();
    assert!(!client_cfg.send_updates_since_last_ack);
    let server_cfg = lightyear::server::config::ReplicationConfig::default();
    assert!(!server_cfg.send_updates_since_last_ack);
}

#[test]
fn sender_sends_whole_groups_by_priority() {
    let mut sender = ReplicationSender::new();
    let g1 = ReplicationGroupId(1);
    let g2 = ReplicationGroupId(2);
    sender.add_group(g1, 1);
    sender.add_group(g2, 1);
    sender.add_member(g1, Entity(10));
    sender.add_member(g1, Entity(11));
    sender.add_member(g2, Entity(20));
    // Both groups dirty; the budget only fits one record of three units.
    let records = sender.send_tick(3);
    assert_eq!(records.len(), 1);
    // The whole group goes out together: both members of group 1.
    assert_eq!(records[0].group_id, g1);
    let entities: Vec<Entity> = records[0].entities.iter().map(|e| e.entity).collect();
    assert_eq!(entities, vec![Entity(10), Entity(11)]);

    // Group 2 was starved once, so its accumulated priority now beats a
    // freshly reset group 1: it is scheduled first on the next tick.
    sender.mark_changed(Entity(10));
    let records = sender.send_tick(100);
    assert_eq!(records.len(), 2);
    assert_eq!(records[0].group_id, g2);
    assert_eq!(records[1].group_id, g1);
}

#[test]
fn sender_spawn_then_update_kinds() {
    let mut sender = ReplicationSender::new();
    let g = ReplicationGroupId(9);
    sender.add_group(g, 1);
    sender.add_member(g, Entity(1));
    let first = sender.send_tick(100);
    assert_eq!(first.len(), 1);
    // First delivery is a spawn carrying full state.
    assert!(matches!(first[0].kind, GroupKind::Spawn));
    sender.mark_changed(Entity(1));
    let second = sender.send_tick(100);
    assert!(matches!(second[0].kind, GroupKind::Update));
    // A visibility or authority change forces a fresh insert.
    sender.mark_reinsert(g);
    let third = sender.send_tick(100);
    assert!(matches!(third[0].kind, GroupKind::Spawn));
}

#[test]
fn sender_respects_budget_and_stays_dirty() {
    let mut sender = ReplicationSender::new();
    let g = ReplicationGroupId(1);
    sender.add_group(g, 1);
    sender.add_member(g, Entity(1));
    sender.add_member(g, Entity(2));
    // Cost is 3 (overhead plus two members); a budget of 2 sends nothing.
    let records = sender.send_tick(2);
    assert_eq!(records.len(), 0);
    // The group stayed dirty and goes out once the budget allows.
    let records = sender.send_tick(3);
    assert_eq!(records.len(), 1);
}

#[test]
fn object_store_keeps_latest_value_per_component() {
    let mut store = ObjectStore::new();
    assert_eq!(store.get_component(Entity(1), POSITION), None);
    store.set_component(Entity(1), POSITION, ComponentValue::Scalar(1));
    store.set_component(Entity(1), 2, ComponentValue::Flag(true));
    store.set_component(Entity(1), POSITION, ComponentValue::Scalar(2));
    assert_eq!(store.get_component(Entity(1), POSITION), Some(ComponentValue::Scalar(2)));
    assert_eq!(store.get_component(Entity(1), 2), Some(ComponentValue::Flag(true)));
    assert_eq!(store.get_component(Entity(2), POSITION), None);
}

#[test]
fn event_accessors() {
    let msg = MessageEvent::new(41u32, ClientId::Local(0));
    assert_eq!(*msg.message(), 41);
    assert_eq!(msg.from(), ClientId::Local(0));

    let input: InputEvent<u8, ClientId> = InputEvent::new(Some(3u8), ClientId::Netcode(1));
    assert_eq!(*input.input(), Some(3u8));
    assert_eq!(input.from(), ClientId::Netcode(1));

    let spawn = EntitySpawnEvent::new(Entity(5), ());
    assert_eq!(spawn.entity(), Entity(5));
    assert_eq!(*spawn.context(), ());

    let despawn = EntityDespawnEvent::new(Entity(6), 9u32);
    assert_eq!(despawn.entity(), Entity(6));
    assert_eq!(*despawn.context(), 9);

    let update: ComponentUpdateEvent<u64> = ComponentUpdateEvent::new(Entity(7), ());
    assert_eq!(update.entity(), Entity(7));
    let insert: ComponentInsertEvent<u64> = ComponentInsertEvent::new(Entity(8), ());
    assert_eq!(insert.entity(), Entity(8));
    let remove: ComponentRemoveEvent<u64> = ComponentRemoveEvent::new(Entity(9), ());
    assert_eq!(remove.entity(), Entity(9));
    assert_eq!(*update.context(), ());
    assert_eq!(*insert.context(), ());
    assert_eq!(*remove.context(), ());
}

#[test]
fn sender_removes_members_in_order() {
    let mut sender = ReplicationSender::new();
    let g = ReplicationGroupId(4);
    sender.add_group(g, 1);
    sender.add_member(g, Entity(1));
    sender.add_member(g, Entity(2));
    sender.add_member(g, Entity(1));
    sender.add_member(g, Entity(3));
    sender.remove_member(g, Entity(1));
    // Every occurrence of the removed member is gone; the rest keep their
    // order, and the next send is a fresh insert.
    let records = sender.send_tick(100);
    assert_eq!(records.len(), 1);
    assert!(matches!(records[0].kind, GroupKind::Spawn));
    let entities: Vec<Entity> = records[0].entities.iter().map(|e| e.entity).collect();
    assert_eq!(entities, vec![Entity(2), Entity(3)]);
}

#[test]
fn sender_sends_nothing_only_when_nothing_fits() {
    let mut sender = ReplicationSender::new();
    let g = ReplicationGroupId(7);
    sender.add_group(g, 1);
    sender.add_member(g, Entity(1));
    // Cost is 2 (overhead plus one member): a budget of 2 must send it.
    let records = sender.send_tick(2);
    assert_eq!(records.len(), 1);
    // Nothing dirty any more: nothing goes out, whatever the budget.
    let records = sender.send_tick(1000);
    assert_eq!(records.len(), 0);
}
