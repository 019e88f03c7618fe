use app_frame::util::{abs_to_rel_paths, Never, ToError};

fn strip(s: &str) -> String {
    abs_to_rel_paths(s).unwrap()
}

#[test]
fn abs_to_rel_paths_works() {
    assert_eq!(
        "GenericStruct<UserConfig, Getter<UserConfig>, UserConfigIndex, UserId>",
        strip("some::path::to::GenericStruct<whatever::state::config::UserConfig, my_crate::state::generic::getter::Getter<whatever::state::config::UserConfig>, my_crate::state::caches::UserConfigIndex, lib::user::UserId>")
    );
    assert_eq!(
        "GenericStruct<Repository, RepositoryProvider, Metadata, UserId>",
        strip("some::path::to::GenericStruct<jwt::state::Repository, my_crate::state::account_providers::mint::RepositoryProvider, my_crate::state::generic::meta::Metadata, lib::user::UserId>",)
    );
    assert_eq!(
        "GenericStruct<Market, Getter<Market>, MarketIndex, UserId>",
        strip("some::path::to::GenericStruct<the_app::control::state::Market, my_crate::state::generic::getter::Getter<the_app::control::state::Market>, my_crate::state::caches::MarketIndex, lib::user::UserId>",)
    );
    assert_eq!(
        "GenericStruct<UserItem, UserItemProvider, Metadata, UserId>",
        strip("some::path::to::GenericStruct<whatever_crate::state::UserItem, my_crate::state::account_providers::manager_crate::UserItemProvider, my_crate::state::generic::meta::Metadata, lib::user::UserId>",)
    );
    assert_eq!(
        "GenericStruct<UserAccount, Getter<UserAccount>, Metadata, UserId>",
        strip("some::path::to::GenericStruct<whatever::state::account::UserAccount, my_crate::state::generic::getter::Getter<whatever::state::account::UserAccount>, my_crate::state::generic::meta::Metadata, lib::user::UserId>",)
    );
    assert_eq!(
        "GenericStruct<User, Arc<dyn HttpClient>, UserIndex, UserId>",
        strip("some::path::to::GenericStruct<the_app::manager::state::User, alloc::sync::Arc<dyn clients::http::HttpClient>, my_crate::state::caches::UserIndex, lib::user::UserId>",)
    );
    assert_eq!(
        "GenericStruct<BTreeSet<Entry>, PurchaseProvider, Metadata, UserId>",
        strip("some::path::to::GenericStruct<alloc::collections::btree::set::BTreeSet<my_crate::state::Entry>, my_crate::state::account_providers::thing::PurchaseProvider, my_crate::state::generic::meta::Metadata, lib::user::UserId>",)
    );
    assert_eq!(
        "GenericStruct<ExtSvc, ExtProvider, Metadata, UserId>",
        strip("some::path::to::GenericStruct<ext_sdk::ExtSvc, my_crate::state::account_providers::oracle::ExtProvider, my_crate::state::generic::meta::Metadata, lib::user::UserId>",)
    );
    assert_eq!(
        "GenericStruct<MyItem, UserItemProvider, Metadata, (UserId, UserId)>",
        strip("some::path::to::GenericStruct<whatever_sdk::access::jwt_access::MyItem, my_crate::state::account_providers::access::UserItemProvider, my_crate::state::generic::meta::Metadata, (lib::user::UserId, lib::user::UserId)>",)
    );
    assert_eq!(
        "InstantiatableProvider",
        strip("my_crate::service::provider::InstantiatableProvider"),
    );
    assert_eq!(
        "StaleProvider",
        strip("my_crate::service::provider::StaleProvider"),
    );
    assert_eq!(
        "InstantiationService",
        strip("my_crate::service::dispatch::InstantiationService"),
    );
    assert_eq!("DataSync", strip("my_crate::init::DataSync"),);
}

#[test]
fn abs_to_rel_paths_keeps_unqualified_text() {
    assert_eq!(strip("plain"), "plain");
    assert_eq!(strip(""), "");
    assert_eq!(strip("::x"), "x");
}

#[test]
fn to_error_takes_the_error_out() {
    let r: Result<Never, String> = Err("boom".to_string());
    assert_eq!(r.to_error(), "boom");
}
