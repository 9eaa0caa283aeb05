//! The persisted configuration and its relation to the store: the store is
//! set up from the configuration when the process starts, and the
//! configuration is drawn from the store whenever the accounts change.

use crate::state::{AccountState, AccountStateView, AppState, AppStateView, UiContextView};
use crate::order::{in_name_order, insert_by_name, lemma_insert_to_multiset, text_le, Named};
use vstd::prelude::*;

verus! {

/// One account as the configuration keeps it.
#[derive(Debug, PartialEq, Eq)]
pub struct SavedAccount {
    pub uuid: String,
    pub alias: String,
    pub token: String,
    pub auto_start: bool,
}

/// Mathematical model of a [`SavedAccount`].
pub struct SavedAccountView {
    pub uuid: Seq<char>,
    pub alias: Seq<char>,
    pub token: Seq<char>,
    pub auto_start: bool,
}

impl View for SavedAccount {
    type V = SavedAccountView;

    open spec fn view(&self) -> SavedAccountView {
        SavedAccountView {
            uuid: self.uuid@,
            alias: self.alias@,
            token: self.token@,
            auto_start: self.auto_start,
        }
    }
}

impl DeepView for SavedAccount {
    type V = SavedAccountView;

    open spec fn deep_view(&self) -> SavedAccountView {
        self@
    }
}

impl Named for SavedAccount {
    open spec fn name(&self) -> Seq<char> {
        self.alias@
    }

    fn name_text(&self) -> (text: &str) {
        self.alias.as_str()
    }
}

impl Clone for SavedAccount {
    fn clone(&self) -> (res: Self)
        ensures
            res@ == self@,
    {
        SavedAccount {
            uuid: self.uuid.clone(),
            alias: self.alias.clone(),
            token: self.token.clone(),
            auto_start: self.auto_start,
        }
    }
}

/// The configuration: the registered accounts and the last selection.
#[derive(Debug, PartialEq, Eq)]
pub struct AppConfig {
    pub accounts: Vec<SavedAccount>,
    pub last_selected_account: Option<String>,
}

/// Mathematical model of an [`AppConfig`].
#[verifier::ext_equal]
pub struct AppConfigView {
    pub accounts: Seq<SavedAccountView>,
    pub last_selected_account: Option<Seq<char>>,
}

impl View for AppConfig {
    type V = AppConfigView;

    open spec fn view(&self) -> AppConfigView {
        AppConfigView {
            accounts: self.accounts.deep_view(),
            last_selected_account: self.last_selected_account.deep_view(),
        }
    }
}

impl Default for AppConfig {
    fn default() -> (config: Self)
        ensures
            config@ == (AppConfigView { accounts: Seq::empty(), last_selected_account: None }),
    {
        let config = AppConfig { accounts: Vec::new(), last_selected_account: None };
        assert(config@.accounts =~= Seq::empty());
        config
    }
}

/// The account that a saved account stands for when the process starts:
/// offline, without guilds and without a worker.
pub open spec fn revived(saved: SavedAccountView) -> AccountStateView {
    AccountStateView::fresh(saved.uuid, saved.alias, saved.token, saved.auto_start)
}

/// What the configuration keeps of an account.
pub open spec fn saved_form(account: AccountStateView) -> SavedAccountView {
    SavedAccountView {
        uuid: account.uuid,
        alias: account.alias,
        token: account.token,
        auto_start: account.auto_start,
    }
}

/// The store that holds the accounts of `saved`, filed one after the other:
/// of two that carry the same identifier the later one stays.
pub open spec fn restored(saved: Seq<SavedAccountView>) -> AppStateView
    decreases saved.len(),
{
    if saved.len() == 0 {
        AppStateView::empty()
    } else {
        restored(saved.drop_last()).inserted(revived(saved.last()))
    }
}

/// The store that the process starts with.
pub open spec fn initial(config: AppConfigView) -> AppStateView {
    AppStateView {
        ui_context: UiContextView {
            selected_account_uuid: config.last_selected_account,
            selected_guild_id: None,
        },
        ..restored(config.accounts)
    }
}

/// What the configuration keeps of each of `accounts`, in their order.
pub open spec fn saved_forms(accounts: Seq<AccountStateView>) -> Seq<SavedAccountView> {
    accounts.map_values(|a: AccountStateView| saved_form(a))
}

/// Whether `saved` is in the order of the aliases.
pub open spec fn sorted_by_alias(saved: Seq<SavedAccountView>) -> bool {
    forall|i: int, j: int|
        0 <= i < j < saved.len() ==> text_le(
            (#[trigger] saved[i]).alias,
            (#[trigger] saved[j]).alias,
        )
}

/// Loading and saving of the configuration, as far as it computes.
pub struct ConfigManager;

impl ConfigManager {
    /// Sets the store up from the configuration: every account is offline,
    /// knows no guild and has no worker.
    pub fn init_state(config: &AppConfig) -> (state: AppState)
        ensures
            state@ == initial(config@),
            state@.wf(),
    {
        let ghost all = config.accounts.deep_view();
        let mut state = AppState::default();
        let mut k: usize = 0;
        assert(all.take(0) =~= Seq::<SavedAccountView>::empty());
        while k < config.accounts.len()
            invariant
                k <= config.accounts.len(),
                all == config.accounts.deep_view(),
                state@ == restored(all.take(k as int)),
                state@.ui_context == AppStateView::empty().ui_context,
                state@.wf(),
            decreases config.accounts.len() - k,
        {
            proof {
                assert(all.take(k as int + 1).drop_last() =~= all.take(k as int));
                assert(all.take(k as int + 1).last() == config.accounts[k as int]@);
            }
            let saved = &config.accounts[k];
            let mut account = AccountState::new(
                saved.uuid.clone(),
                saved.alias.clone(),
                saved.token.clone(),
            );
            account.auto_start = saved.auto_start;
            assert(account@ =~= revived(saved@));
            state.insert_account(account);
            k += 1;
        }
        assert(all.take(k as int) =~= all);
        state.ui_context.selected_account_uuid = config.last_selected_account.clone();
        assert(state@ =~= initial(config@));
        state
    }

    /// Draws the configuration from the store: what is kept of every
    /// account, in the order of the aliases, and the selected account.
    pub fn update_from_state(state: &AppState) -> (config: AppConfig)
        ensures
            config@.last_selected_account == state@.ui_context.selected_account_uuid,
            sorted_by_alias(config@.accounts),
            config@.accounts.to_multiset() == saved_forms(state@.accounts).to_multiset(),
    {
        broadcast use vstd::seq_lib::group_to_multiset_ensures;

        let ghost all = saved_forms(state@.accounts);
        let mut out: Vec<SavedAccount> = Vec::new();
        let mut k: usize = 0;
        assert(all.take(0) =~= Seq::<SavedAccountView>::empty());
        assert(out.deep_view() =~= Seq::<SavedAccountView>::empty());
        while k < state.accounts.len()
            invariant
                k <= state.accounts.len(),
                all == saved_forms(state@.accounts),
                all.len() == state.accounts.len(),
                in_name_order(out@),
                out.deep_view().to_multiset() == all.take(k as int).to_multiset(),
            decreases state.accounts.len() - k,
        {
            let account = &state.accounts[k];
            let saved = SavedAccount {
                uuid: account.uuid.clone(),
                alias: account.alias.clone(),
                token: account.token.clone(),
                auto_start: account.auto_start,
            };
            assert(saved@ == all[k as int]);
            let ghost sorted = out.deep_view();
            let place = insert_by_name(&mut out, saved);
            proof {
                assert(out.deep_view() =~= sorted.insert(place as int, saved@));
                lemma_insert_to_multiset(sorted, place as int, saved@);
                assert(all.take(k as int + 1) =~= all.take(k as int).push(saved@));
                vstd::seq_lib::to_multiset_build(all.take(k as int), saved@);
                assert(out.deep_view().to_multiset() =~= all.take(k as int + 1).to_multiset());
            }
            k += 1;
        }
        proof {
            assert(all.take(k as int) =~= all);
            assert forall|i: int, j: int| 0 <= i < j < out.deep_view().len() implies text_le(
                (#[trigger] out.deep_view()[i]).alias,
                (#[trigger] out.deep_view()[j]).alias,
            ) by {
                assert(text_le(out@[i].name(), out@[j].name()));
            }
        }
        AppConfig {
            accounts: out,
            last_selected_account: state.ui_context.selected_account_uuid.clone(),
        }
    }
}

} // verus!
