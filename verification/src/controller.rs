//! Messages for a margin engine that runs as a contract of its own: what to
//! send it, and what to ask it.
use crate::engine::{PnlCalcOption, Side};
use vstd::prelude::*;

verus! {

/// An amount of a native token.
#[derive(Clone, Debug, PartialEq, Eq)]
pub struct Coin {
    pub denom: String,
    pub amount: u128,
}

/// What the engine can be told to do.
#[derive(Clone, Debug, PartialEq, Eq)]
pub enum ExecuteMsg {
    UpdateConfig {
        owner: Option<String>,
        insurance_fund: Option<String>,
        fee_pool: Option<String>,
        initial_margin_ratio: Option<u128>,
        maintenance_margin_ratio: Option<u128>,
        partial_liquidation_ratio: Option<u128>,
        liquidation_fee: Option<u128>,
    },
    SetPause { pause: bool },
    OpenPosition {
        vamm: String,
        side: Side,
        margin_amount: u128,
        leverage: u128,
        base_asset_limit: u128,
    },
    ClosePosition { vamm: String, quote_asset_limit: u128 },
    Liquidate { vamm: String, trader: String, quote_asset_limit: u128 },
    PayFunding { vamm: String },
    DepositMargin { vamm: String, amount: u128 },
    WithdrawMargin { vamm: String, amount: u128 },
    AddWhitelist { address: String },
    RemoveWhitelist { address: String },
}

/// What the engine can be asked.
#[derive(Clone, Debug, PartialEq, Eq)]
pub enum QueryMsg {
    Config {  },
    State {  },
    Position { vamm: String, trader: String },
    AllPositions { trader: String },
    GetWhitelist {  },
    IsWhitelisted { address: String },
    UnrealizedPnl { vamm: String, trader: String, calc_option: PnlCalcOption },
    FreeCollateral { vamm: String, trader: String },
    MarginRatio { vamm: String, trader: String },
    BalanceWithFundingPayment { trader: String },
    PositionWithFundingPayment { vamm: String, trader: String },
    CumulativePremiumFraction { vamm: String },
}

/// A message to a contract, with the funds that go along.
#[derive(Clone, Debug, PartialEq, Eq)]
pub struct WasmExecute {
    pub contract_addr: String,
    pub msg: ExecuteMsg,
    pub funds: Vec<Coin>,
}

/// A question to a contract.
#[derive(Clone, Debug, PartialEq, Eq)]
pub struct WasmQuery {
    pub contract_addr: String,
    pub msg: QueryMsg,
}

/// The address of an engine, with helpers that address messages to it.
#[derive(Clone, Debug, PartialEq, Eq)]
pub struct EngineController(pub String);

/// Whether `r` carries `msg` and `funds` to `addr`.
pub open spec fn is_call(r: WasmExecute, addr: String, msg: ExecuteMsg, funds: Seq<Coin>) -> bool {
    r.contract_addr == addr && r.msg == msg && r.funds@ == funds
}

impl EngineController {
    /// The engine's address.
    pub fn addr(&self) -> (r: String)
        ensures
            r == self.0,
    {
        self.0.clone()
    }

    /// The message `msg` to the engine, with `funds`.
    pub fn call(&self, msg: ExecuteMsg, funds: Vec<Coin>) -> (r: WasmExecute)
        ensures
            is_call(r, self.0, msg, funds@),
    {
        WasmExecute { contract_addr: self.addr(), msg, funds }
    }

    /// The question `msg` to the engine.
    fn ask(&self, msg: QueryMsg) -> (r: WasmQuery)
        ensures
            r == (WasmQuery { contract_addr: self.0, msg }),
    {
        WasmQuery { contract_addr: self.addr(), msg }
    }

    /// Changes the engine's parameters, each where a new value is given.
    pub fn update_config(
        &self,
        owner: Option<String>,
        insurance_fund: Option<String>,
        fee_pool: Option<String>,
        initial_margin_ratio: Option<u128>,
        maintenance_margin_ratio: Option<u128>,
        partial_liquidation_ratio: Option<u128>,
        liquidation_fee: Option<u128>,
    ) -> (r: WasmExecute)
        ensures
            is_call(
                r,
                self.0,
                ExecuteMsg::UpdateConfig {
                    owner,
                    insurance_fund,
                    fee_pool,
                    initial_margin_ratio,
                    maintenance_margin_ratio,
                    partial_liquidation_ratio,
                    liquidation_fee,
                },
                Seq::empty(),
            ),
    {
        let msg = ExecuteMsg::UpdateConfig {
            owner,
            insurance_fund,
            fee_pool,
            initial_margin_ratio,
            maintenance_margin_ratio,
            partial_liquidation_ratio,
            liquidation_fee,
        };
        self.call(msg, Vec::new())
    }

    /// Sets the initial margin ratio and nothing else.
    pub fn set_initial_margin_ratio(&self, initial_margin_ratio: u128) -> (r: WasmExecute)
        ensures
            is_call(
                r,
                self.0,
                ExecuteMsg::UpdateConfig {
                    owner: None,
                    insurance_fund: None,
                    fee_pool: None,
                    initial_margin_ratio: Some(initial_margin_ratio),
                    maintenance_margin_ratio: None,
                    partial_liquidation_ratio: None,
                    liquidation_fee: None,
                },
                Seq::empty(),
            ),
    {
        let msg = ExecuteMsg::UpdateConfig {
            owner: None,
            insurance_fund: None,
            fee_pool: None,
            initial_margin_ratio: Some(initial_margin_ratio),
            maintenance_margin_ratio: None,
            partial_liquidation_ratio: None,
            liquidation_fee: None,
        };
        self.call(msg, Vec::new())
    }

    /// Sets the maintenance margin ratio and nothing else.
    pub fn set_maintenance_margin_ratio(&self, maintenance_margin_ratio: u128) -> (r: WasmExecute)
        ensures
            is_call(
                r,
                self.0,
                ExecuteMsg::UpdateConfig {
                    owner: None,
                    insurance_fund: None,
                    fee_pool: None,
                    initial_margin_ratio: None,
                    maintenance_margin_ratio: Some(maintenance_margin_ratio),
                    partial_liquidation_ratio: None,
                    liquidation_fee: None,
                },
                Seq::empty(),
            ),
    {
        let msg = ExecuteMsg::UpdateConfig {
            owner: None,
            insurance_fund: None,
            fee_pool: None,
            initial_margin_ratio: None,
            maintenance_margin_ratio: Some(maintenance_margin_ratio),
            partial_liquidation_ratio: None,
            liquidation_fee: None,
        };
        self.call(msg, Vec::new())
    }

    /// Sets both margin ratios to one value.
    pub fn set_margin_ratios(&self, margin_ratio: u128) -> (r: WasmExecute)
        ensures
            is_call(
                r,
                self.0,
                ExecuteMsg::UpdateConfig {
                    owner: None,
                    insurance_fund: None,
                    fee_pool: None,
                    initial_margin_ratio: Some(margin_ratio),
                    maintenance_margin_ratio: Some(margin_ratio),
                    partial_liquidation_ratio: None,
                    liquidation_fee: None,
                },
                Seq::empty(),
            ),
    {
        let msg = ExecuteMsg::UpdateConfig {
            owner: None,
            insurance_fund: None,
            fee_pool: None,
            initial_margin_ratio: Some(margin_ratio),
            maintenance_margin_ratio: Some(margin_ratio),
            partial_liquidation_ratio: None,
            liquidation_fee: None,
        };
        self.call(msg, Vec::new())
    }

    /// Sets the partial liquidation ratio and nothing else.
    pub fn set_partial_liquidation_ratio(&self, partial_liquidation_ratio: u128) -> (r: WasmExecute)
        ensures
            is_call(
                r,
                self.0,
                ExecuteMsg::UpdateConfig {
                    owner: None,
                    insurance_fund: None,
                    fee_pool: None,
                    initial_margin_ratio: None,
                    maintenance_margin_ratio: None,
                    partial_liquidation_ratio: Some(partial_liquidation_ratio),
                    liquidation_fee: None,
                },
                Seq::empty(),
            ),
    {
        let msg = ExecuteMsg::UpdateConfig {
            owner: None,
            insurance_fund: None,
            fee_pool: None,
            initial_margin_ratio: None,
            maintenance_margin_ratio: None,
            partial_liquidation_ratio: Some(partial_liquidation_ratio),
            liquidation_fee: None,
        };
        self.call(msg, Vec::new())
    }

    /// Sets the liquidation fee and nothing else.
    pub fn set_liquidation_fee(&self, liquidation_fee: u128) -> (r: WasmExecute)
        ensures
            is_call(
                r,
                self.0,
                ExecuteMsg::UpdateConfig {
                    owner: None,
                    insurance_fund: None,
                    fee_pool: None,
                    initial_margin_ratio: None,
                    maintenance_margin_ratio: None,
                    partial_liquidation_ratio: None,
                    liquidation_fee: Some(liquidation_fee),
                },
                Seq::empty(),
            ),
    {
        let msg = ExecuteMsg::UpdateConfig {
            owner: None,
            insurance_fund: None,
            fee_pool: None,
            initial_margin_ratio: None,
            maintenance_margin_ratio: None,
            partial_liquidation_ratio: None,
            liquidation_fee: Some(liquidation_fee),
        };
        self.call(msg, Vec::new())
    }

    /// Pauses the engine or lets it run.
    pub fn set_pause(&self, pause: bool) -> (r: WasmExecute)
        ensures
            is_call(
                r,
                self.0,
                ExecuteMsg::SetPause { pause },
                Seq::empty(),
            ),
    {
        let msg = ExecuteMsg::SetPause { pause };
        self.call(msg, Vec::new())
    }

    /// Opens exposure in the market `vamm`.
    pub fn open_position(
        &self,
        vamm: String,
        side: Side,
        margin_amount: u128,
        leverage: u128,
        base_asset_limit: u128,
        funds: Vec<Coin>,
    ) -> (r: WasmExecute)
        ensures
            is_call(
                r,
                self.0,
                ExecuteMsg::OpenPosition { vamm, side, margin_amount, leverage, base_asset_limit },
                funds@,
            ),
    {
        let msg = ExecuteMsg::OpenPosition {
            vamm,
            side,
            margin_amount,
            leverage,
            base_asset_limit,
        };
        self.call(msg, funds)
    }

    /// Closes the sender's position in the market `vamm`.
    pub fn close_position(&self, vamm: String, quote_asset_limit: u128) -> (r: WasmExecute)
        ensures
            is_call(
                r,
                self.0,
                ExecuteMsg::ClosePosition { vamm, quote_asset_limit },
                Seq::empty(),
            ),
    {
        let msg = ExecuteMsg::ClosePosition { vamm, quote_asset_limit };
        self.call(msg, Vec::new())
    }

    /// Liquidates the position of `trader` in the market `vamm`.
    pub fn liquidate(
        &self,
        vamm: String,
        trader: String,
        quote_asset_limit: u128,
    ) -> (r: WasmExecute)
        ensures
            is_call(
                r,
                self.0,
                ExecuteMsg::Liquidate { vamm, trader, quote_asset_limit },
                Seq::empty(),
            ),
    {
        let msg = ExecuteMsg::Liquidate { vamm, trader, quote_asset_limit };
        self.call(msg, Vec::new())
    }

    /// Pays funding in the market `vamm`.
    pub fn pay_funding(&self, vamm: String) -> (r: WasmExecute)
        ensures
            is_call(
                r,
                self.0,
                ExecuteMsg::PayFunding { vamm },
                Seq::empty(),
            ),
    {
        let msg = ExecuteMsg::PayFunding { vamm };
        self.call(msg, Vec::new())
    }

    /// Adds margin to the sender's position in the market `vamm`.
    pub fn deposit_margin(&self, vamm: String, amount: u128, funds: Vec<Coin>) -> (r: WasmExecute)
        ensures
            is_call(
                r,
                self.0,
                ExecuteMsg::DepositMargin { vamm, amount },
                funds@,
            ),
    {
        let msg = ExecuteMsg::DepositMargin { vamm, amount };
        self.call(msg, funds)
    }

    /// Takes margin out of the sender's position in the market `vamm`.
    pub fn withdraw_margin(&self, vamm: String, amount: u128) -> (r: WasmExecute)
        ensures
            is_call(
                r,
                self.0,
                ExecuteMsg::WithdrawMargin { vamm, amount },
                Seq::empty(),
            ),
    {
        let msg = ExecuteMsg::WithdrawMargin { vamm, amount };
        self.call(msg, Vec::new())
    }

    /// Puts `address` on the whitelist.
    pub fn add_whitelist(&self, address: String) -> (r: WasmExecute)
        ensures
            is_call(
                r,
                self.0,
                ExecuteMsg::AddWhitelist { address },
                Seq::empty(),
            ),
    {
        let msg = ExecuteMsg::AddWhitelist { address };
        self.call(msg, Vec::new())
    }

    /// Takes `address` off the whitelist.
    pub fn remove_whitelist(&self, address: String) -> (r: WasmExecute)
        ensures
            is_call(
                r,
                self.0,
                ExecuteMsg::RemoveWhitelist { address },
                Seq::empty(),
            ),
    {
        let msg = ExecuteMsg::RemoveWhitelist { address };
        self.call(msg, Vec::new())
    }

    /// The question for the engine's parameters.
    pub fn config(&self) -> (r: WasmQuery)
        ensures
            r == (WasmQuery { contract_addr: self.0, msg: QueryMsg::Config {  } }),
    {
        self.ask(QueryMsg::Config {  })
    }

    /// The question for the engine's state.
    pub fn state(&self) -> (r: WasmQuery)
        ensures
            r == (WasmQuery { contract_addr: self.0, msg: QueryMsg::State {  } }),
    {
        self.ask(QueryMsg::State {  })
    }

    /// The question for the position of `trader` in the market `vamm`.
    pub fn position(&self, vamm: String, trader: String) -> (r: WasmQuery)
        ensures
            r == (WasmQuery { contract_addr: self.0, msg: QueryMsg::Position { vamm, trader } }),
    {
        self.ask(QueryMsg::Position { vamm, trader })
    }

    /// The question for the positions of `trader` in all markets.
    pub fn get_all_positions(&self, trader: String) -> (r: WasmQuery)
        ensures
            r == (WasmQuery { contract_addr: self.0, msg: QueryMsg::AllPositions { trader } }),
    {
        self.ask(QueryMsg::AllPositions { trader })
    }

    /// The question for the whitelist.
    pub fn get_whitelist(&self) -> (r: WasmQuery)
        ensures
            r == (WasmQuery { contract_addr: self.0, msg: QueryMsg::GetWhitelist {  } }),
    {
        self.ask(QueryMsg::GetWhitelist {  })
    }

    /// The question whether `address` is on the whitelist.
    pub fn is_whitelist(&self, address: String) -> (r: WasmQuery)
        ensures
            r == (WasmQuery { contract_addr: self.0, msg: QueryMsg::IsWhitelisted { address } }),
    {
        self.ask(QueryMsg::IsWhitelisted { address })
    }

    /// The question for the unrealized gain or loss of a position.
    pub fn get_unrealized_pnl(
        &self,
        vamm: String,
        trader: String,
        calc_option: PnlCalcOption,
    ) -> (r: WasmQuery)
        ensures
            r == (WasmQuery {
                contract_addr: self.0,
                msg: QueryMsg::UnrealizedPnl { vamm, trader, calc_option },
            }),
    {
        self.ask(QueryMsg::UnrealizedPnl { vamm, trader, calc_option })
    }

    /// The question for the free collateral of a position.
    pub fn get_free_collateral(&self, vamm: String, trader: String) -> (r: WasmQuery)
        ensures
            r == (WasmQuery {
                contract_addr: self.0,
                msg: QueryMsg::FreeCollateral { vamm, trader },
            }),
    {
        self.ask(QueryMsg::FreeCollateral { vamm, trader })
    }

    /// The question for the margin ratio of a position.
    pub fn get_margin_ratio(&self, vamm: String, trader: String) -> (r: WasmQuery)
        ensures
            r == (WasmQuery { contract_addr: self.0, msg: QueryMsg::MarginRatio { vamm, trader } }),
    {
        self.ask(QueryMsg::MarginRatio { vamm, trader })
    }

    /// The question for the margin balance of `trader`, funding included.
    pub fn get_balance_with_funding_payment(&self, trader: String) -> (r: WasmQuery)
        ensures
            r == (WasmQuery {
                contract_addr: self.0,
                msg: QueryMsg::BalanceWithFundingPayment { trader },
            }),
    {
        self.ask(QueryMsg::BalanceWithFundingPayment { trader })
    }

    /// The question for a position, funding included.
    pub fn get_position_with_funding_payment(&self, vamm: String, trader: String) -> (r: WasmQuery)
        ensures
            r == (WasmQuery {
                contract_addr: self.0,
                msg: QueryMsg::PositionWithFundingPayment { vamm, trader },
            }),
    {
        self.ask(QueryMsg::PositionWithFundingPayment { vamm, trader })
    }

    /// The question for the latest cumulative premium fraction of the market `vamm`.
    pub fn get_latest_cumulative_premium_fraction(&self, vamm: String) -> (r: WasmQuery)
        ensures
            r == (WasmQuery {
                contract_addr: self.0,
                msg: QueryMsg::CumulativePremiumFraction { vamm },
            }),
    {
        self.ask(QueryMsg::CumulativePremiumFraction { vamm })
    }
}

} // verus!
