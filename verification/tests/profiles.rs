use snxcore::model::params::{IkeVersion, TunnelParams, TunnelType};
use snxcore::profiles::ConnectionProfilesStore;
use uuid::Uuid;

const DEFAULT_ID: u128 = 0;

fn params(name: &str, id: u128) -> TunnelParams {
    TunnelParams {
        profile_id: id,
        profile_name: name.to_owned(),
        config_file: format!("/profiles/{}.conf", Uuid::from_u128(id)),
        server_name: String::new(),
        login_type: String::new(),
        user_name: String::new(),
        tunnel_type: TunnelType::IPsec,
        ike_version: IkeVersion::AutoDetect,
        ike_persist: false,
        search_domains: Vec::new(),
        ignore_search_domains: Vec::new(),
        dns_servers: Vec::new(),
        ignore_dns_servers: Vec::new(),
        set_routing_domains: false,
        no_split_dns: false,
        no_routing: false,
        default_route: false,
        add_routes: Vec::new(),
        ignore_routes: Vec::new(),
        disable_ipv6: false,
    }
}

fn default_params() -> TunnelParams {
    params("default", DEFAULT_ID)
}

const ID1: u128 = 0x9a3f_1c2e_4b5d_4e6f_8a7b_0c1d_2e3f_4a5b;
const ID2: u128 = 0x1b2c_3d4e_5f60_4172_8394_a5b6_c7d8_e9f0;

#[test]
fn new_in_empty_dir_creates_default_profile() {
    let store = ConnectionProfilesStore::new_in(Vec::new(), default_params());
    let all = store.all();
    assert_eq!(all.len(), 1);
    assert_eq!(all[0].profile_id, DEFAULT_ID);
}

#[test]
fn new_in_loads_existing_profiles() {
    let store = ConnectionProfilesStore::new_in(vec![params("alpha", ID1), params("beta", ID2)], default_params());
    let all = store.all();
    assert_eq!(all.len(), 2);
    assert!(all.iter().any(|p| p.profile_id == ID1));
    assert!(all.iter().any(|p| p.profile_id == ID2));
}

#[test]
fn get_returns_profile_by_uuid() {
    let store = ConnectionProfilesStore::new_in(vec![params("alpha", ID1)], default_params());
    assert_eq!(store.get(ID1).unwrap().profile_id, ID1);
    assert!(store.get(ID2).is_none());
}

#[test]
fn find_by_name_or_uuid_matches_either() {
    let store = ConnectionProfilesStore::new_in(vec![params("alpha", ID1)], default_params());
    assert_eq!(store.find_by_name_or_uuid("alpha").unwrap().profile_id, ID1);
    assert_eq!(store.find_by_name_or_uuid(&Uuid::from_u128(ID1).to_string()).unwrap().profile_id, ID1);
    assert!(store.find_by_name_or_uuid("missing").is_none());
}

#[test]
fn get_default_returns_default_profile() {
    let store = ConnectionProfilesStore::new_in(Vec::new(), default_params());
    assert_eq!(store.get_default().profile_id, DEFAULT_ID);
}

#[test]
fn set_connected_changes_get_connected() {
    let mut store = ConnectionProfilesStore::new_in(vec![params("alpha", ID1)], default_params());
    assert_eq!(store.get_connected().profile_id, DEFAULT_ID);

    store.set_connected(ID1);
    assert_eq!(store.get_connected().profile_id, ID1);

    store.set_connected(ID2);
    assert_eq!(store.get_connected().profile_id, DEFAULT_ID);
}

#[test]
fn save_adds_and_updates_profile() {
    let mut store = ConnectionProfilesStore::new_in(Vec::new(), default_params());

    let order = store.save(params("alpha", ID1));
    assert_eq!(order, Some(vec![DEFAULT_ID, ID1]));
    assert_eq!(store.all().len(), 2);
    assert_eq!(store.get(ID1).unwrap().profile_name, "alpha");

    let order = store.save(params("renamed", ID1));
    assert_eq!(order, None);
    assert_eq!(store.all().len(), 2);
    assert_eq!(store.get(ID1).unwrap().profile_name, "renamed");
}

#[test]
fn remove_drops_profile_and_deletes_file() {
    let mut store = ConnectionProfilesStore::new_in(vec![params("alpha", ID1), params("beta", ID2)], default_params());
    let (file, order) = store.remove(ID1);

    assert!(store.get(ID1).is_none());
    assert_eq!(file, Some(format!("/profiles/{}.conf", Uuid::from_u128(ID1))));
    assert_eq!(order, vec![ID2]);

    let (file, order) = store.remove(ID1);
    assert_eq!(file, None);
    assert_eq!(order, vec![ID2]);
}

#[test]
fn reorder_swaps_profiles_in_memory() {
    let mut store = ConnectionProfilesStore::new_in(vec![params("alpha", ID1), params("beta", ID2)], default_params());
    let before = store.all();
    let first = before[0].profile_id;
    let second = before[1].profile_id;

    assert_eq!(store.reorder(0, 1), Some(vec![second, first]));
    let after = store.all();
    assert_eq!(after[0].profile_id, second);
    assert_eq!(after[1].profile_id, first);

    assert_eq!(store.reorder(5, 0), None);
    assert_eq!(store.reorder(0, 0), None);
    let after = store.all();
    assert_eq!(after[0].profile_id, second);
    assert_eq!(after[1].profile_id, first);
}

#[test]
fn reorder_back_undoes_a_move() {
    let ids = [ID1, ID2, 7, 8];
    let loaded: Vec<TunnelParams> = ids.iter().map(|&id| params("p", id)).collect();
    let mut store = ConnectionProfilesStore::new_in(loaded, default_params());
    store.reorder(3, 1);
    let moved: Vec<u128> = store.all().iter().map(|p| p.profile_id).collect();
    assert_eq!(moved, vec![ID1, 8, ID2, 7]);
    store.reorder(1, 3);
    let back: Vec<u128> = store.all().iter().map(|p| p.profile_id).collect();
    assert_eq!(back, ids.to_vec());
}

#[test]
fn find_by_name_prefers_the_first_match() {
    let store = ConnectionProfilesStore::new_in(vec![params("same", ID1), params("same", ID2)], default_params());
    assert_eq!(store.find_by_name_or_uuid("same").unwrap().profile_id, ID1);
    assert_eq!(store.find_by_name_or_id("other", Some(ID2)).unwrap().profile_id, ID2);
    assert!(store.find_by_name_or_id("other", None).is_none());
}

#[test]
fn default_is_kept_when_not_stored() {
    let store = ConnectionProfilesStore::new_in(vec![params("alpha", ID1)], default_params());
    let d = store.get_default();
    assert_eq!(d.profile_id, DEFAULT_ID);
    assert_eq!(d.profile_name, "default");
}
