//! Mapping of product symbols between the dashed form used by one venue
//! (`BTC-USDT`, `BTC-USDT-SWAP`) and the joined form used by another
//! (`BTCUSDT`, `BTCUSDTSWAP`).
use vstd::prelude::*;
use vstd::string::*;

verus! {

/// Number of listed pairs.
pub const PAIR_COUNT: usize = 126;

/// Position of the one listed pair quoted in BTC (`ETH-BTC`); every other
/// pair is quoted in USDT.
pub const ETH_BTC_INDEX: usize = 85;

/// `USDT` as characters.
pub open spec fn usdt() -> Seq<char> {
    seq!['U', 'S', 'D', 'T']
}

/// `BTC` as characters.
pub open spec fn btc() -> Seq<char> {
    seq!['B', 'T', 'C']
}

/// Quote symbol of the `i`-th listed pair.
pub open spec fn pair_quote(i: int) -> Seq<char> {
    if i == ETH_BTC_INDEX {
        btc()
    } else {
        usdt()
    }
}

/// Base symbol of the `i`-th listed pair, in listing order.
pub open spec fn pair_base(i: int) -> Seq<char> {
    if i == 0 {
        seq!['M', 'D', 'T']
    } else if i == 1 {
        seq!['K', 'N', 'C']
    } else if i == 2 {
        seq!['C', 'V', 'X']
    } else if i == 3 {
        seq!['A', 'G', 'L', 'D']
    } else if i == 4 {
        seq!['I', 'O', 'T', 'A']
    } else if i == 5 {
        seq!['Q', 'T', 'U', 'M']
    } else if i == 6 {
        seq!['A', 'X', 'S']
    } else if i == 7 {
        seq!['L', 'Q', 'T', 'Y']
    } else if i == 8 {
        seq!['E', 'T', 'C']
    } else if i == 9 {
        seq!['A', 'S', 'T', 'R']
    } else if i == 10 {
        seq!['B', 'C', 'H']
    } else if i == 11 {
        seq!['A', 'P', 'T']
    } else if i == 12 {
        seq!['T', 'R', 'X']
    } else if i == 13 {
        seq!['C', 'E', 'L', 'R']
    } else if i == 14 {
        seq!['C', 'E', 'L', 'O']
    } else if i == 15 {
        seq!['S', 'A', 'N', 'D']
    } else if i == 16 {
        seq!['K', 'L', 'A', 'Y']
    } else if i == 17 {
        seq!['T']
    } else if i == 18 {
        seq!['F', 'L', 'M']
    } else if i == 19 {
        seq!['R', 'A', 'Y']
    } else if i == 20 {
        seq!['S', 'O', 'L']
    } else if i == 21 {
        seq!['A', 'P', 'I', '3']
    } else if i == 22 {
        seq!['Y', 'F', 'I']
    } else if i == 23 {
        seq!['L', 'D', 'O']
    } else if i == 24 {
        seq!['N', 'M', 'R']
    } else if i == 25 {
        seq!['A', 'A', 'V', 'E']
    } else if i == 26 {
        seq!['T', 'R', 'B']
    } else if i == 27 {
        seq!['M', 'A', 'T', 'I', 'C']
    } else if i == 28 {
        seq!['D', 'O', 'G', 'E']
    } else if i == 29 {
        seq!['X', 'R', 'P']
    } else if i == 30 {
        seq!['E', 'N', 'S']
    } else if i == 31 {
        seq!['L', 'P', 'T']
    } else if i == 32 {
        seq!['B', 'N', 'B']
    } else if i == 33 {
        seq!['S', 'P', 'E', 'L', 'L']
    } else if i == 34 {
        seq!['C', 'R', 'V']
    } else if i == 35 {
        seq!['A', 'R', 'B']
    } else if i == 36 {
        seq!['E', 'G', 'L', 'D']
    } else if i == 37 {
        seq!['N', 'E', 'O']
    } else if i == 38 {
        seq!['C', 'H', 'Z']
    } else if i == 39 {
        seq!['U', 'S', 'D', 'C']
    } else if i == 40 {
        seq!['D', 'O', 'T']
    } else if i == 41 {
        seq!['M', 'I', 'N', 'A']
    } else if i == 42 {
        seq!['E', 'O', 'S']
    } else if i == 43 {
        seq!['G', 'M', 'X']
    } else if i == 44 {
        seq!['G', 'R', 'T']
    } else if i == 45 {
        seq!['S', 'K', 'L']
    } else if i == 46 {
        seq!['I', 'O', 'S', 'T']
    } else if i == 47 {
        seq!['R', 'D', 'N', 'T']
    } else if i == 48 {
        seq!['B', 'T', 'C']
    } else if i == 49 {
        seq!['W', 'O', 'O']
    } else if i == 50 {
        seq!['A', 'C', 'H']
    } else if i == 51 {
        seq!['A', 'P', 'E']
    } else if i == 52 {
        seq!['I', 'D']
    } else if i == 53 {
        seq!['A', 'D', 'A']
    } else if i == 54 {
        seq!['H', 'N', 'T']
    } else if i == 55 {
        seq!['A', 'L', 'P', 'H', 'A']
    } else if i == 56 {
        seq!['C', 'F', 'X']
    } else if i == 57 {
        seq!['S', 'R', 'M']
    } else if i == 58 {
        seq!['U', 'N', 'I']
    } else if i == 59 {
        seq!['T', 'H', 'E', 'T', 'A']
    } else if i == 60 {
        seq!['H', 'B', 'A', 'R']
    } else if i == 61 {
        seq!['Z', 'E', 'C']
    } else if i == 62 {
        seq!['S', 'U', 'S', 'H', 'I']
    } else if i == 63 {
        seq!['L', 'T', 'C']
    } else if i == 64 {
        seq!['I', 'C', 'X']
    } else if i == 65 {
        seq!['L', 'I', 'N', 'K']
    } else if i == 66 {
        seq!['X', 'T', 'Z']
    } else if i == 67 {
        seq!['R', 'V', 'N']
    } else if i == 68 {
        seq!['W', 'L', 'D']
    } else if i == 69 {
        seq!['O', 'P']
    } else if i == 70 {
        seq!['R', 'E', 'N']
    } else if i == 71 {
        seq!['B', 'L', 'U', 'R']
    } else if i == 72 {
        seq!['S', 'U', 'I']
    } else if i == 73 {
        seq!['I', 'C', 'P']
    } else if i == 74 {
        seq!['X', 'M', 'R']
    } else if i == 75 {
        seq!['Z', 'E', 'N']
    } else if i == 76 {
        seq!['F', 'T', 'M']
    } else if i == 77 {
        seq!['M', 'A', 'G', 'I', 'C']
    } else if i == 78 {
        seq!['D', 'G', 'B']
    } else if i == 79 {
        seq!['L', 'R', 'C']
    } else if i == 80 {
        seq!['D', 'Y', 'D', 'X']
    } else if i == 81 {
        seq!['Z', 'R', 'X']
    } else if i == 82 {
        seq!['S', 'C']
    } else if i == 83 {
        seq!['F', 'I', 'L']
    } else if i == 84 {
        seq!['R', 'S', 'R']
    } else if i == 85 {
        seq!['E', 'T', 'H']
    } else if i == 86 {
        seq!['O', 'N', 'T']
    } else if i == 87 {
        seq!['F', 'X', 'S']
    } else if i == 88 {
        seq!['U', 'M', 'A']
    } else if i == 89 {
        seq!['A', 'R']
    } else if i == 90 {
        seq!['B', 'A', 'N', 'D']
    } else if i == 91 {
        seq!['X', 'L', 'M']
    } else if i == 92 {
        seq!['S', 'N', 'X']
    } else if i == 93 {
        seq!['A', 'T', 'O', 'M']
    } else if i == 94 {
        seq!['B', 'A', 'T']
    } else if i == 95 {
        seq!['M', 'A', 'N', 'A']
    } else if i == 96 {
        seq!['C', 'V', 'C']
    } else if i == 97 {
        seq!['X', 'E', 'M']
    } else if i == 98 {
        seq!['S', 'S', 'V']
    } else if i == 99 {
        seq!['K', 'S', 'M']
    } else if i == 100 {
        seq!['J', 'O', 'E']
    } else if i == 101 {
        seq!['E', 'T', 'H']
    } else if i == 102 {
        seq!['S', 'T', 'O', 'R', 'J']
    } else if i == 103 {
        seq!['G', 'M', 'T']
    } else if i == 104 {
        seq!['O', 'M', 'G']
    } else if i == 105 {
        seq!['P', 'E', 'O', 'P', 'L', 'E']
    } else if i == 106 {
        seq!['B', 'A', 'L']
    } else if i == 107 {
        seq!['Z', 'I', 'L']
    } else if i == 108 {
        seq!['F', 'L', 'O', 'W']
    } else if i == 109 {
        seq!['I', 'M', 'X']
    } else if i == 110 {
        seq!['C', 'O', 'M', 'P']
    } else if i == 111 {
        seq!['A', 'L', 'G', 'O']
    } else if i == 112 {
        seq!['W', 'A', 'V', 'E', 'S']
    } else if i == 113 {
        seq!['D', 'A', 'S', 'H']
    } else if i == 114 {
        seq!['E', 'N', 'J']
    } else if i == 115 {
        seq!['1', 'I', 'N', 'C', 'H']
    } else if i == 116 {
        seq!['P', 'E', 'R', 'P']
    } else if i == 117 {
        seq!['N', 'E', 'A', 'R']
    } else if i == 118 {
        seq!['A', 'N', 'T']
    } else if i == 119 {
        seq!['G', 'A', 'L']
    } else if i == 120 {
        seq!['O', 'N', 'E']
    } else if i == 121 {
        seq!['M', 'K', 'R']
    } else if i == 122 {
        seq!['G', 'A', 'L', 'A']
    } else if i == 123 {
        seq!['A', 'V', 'A', 'X']
    } else if i == 124 {
        seq!['M', 'A', 'S', 'K']
    } else if i == 125 {
        seq!['S', 'T', 'X']
    } else {
        Seq::empty()
    }
}
/// The symbols of the `i`-th listed pair.
fn pair_symbols(i: usize) -> (r: (&'static str, &'static str))
    requires
        i < PAIR_COUNT,
    ensures
        r.0@ == pair_base(i as int),
        r.1@ == pair_quote(i as int),
{
    proof {
        reveal_strlit("USDT");
        reveal_strlit("BTC");
    }
    let quote: &'static str = if i == ETH_BTC_INDEX { "BTC" } else { "USDT" };
    let base: &'static str = match i {
        0 => {
            proof {
                reveal_strlit("MDT");
            }
            "MDT"
        },
        1 => {
            proof {
                reveal_strlit("KNC");
            }
            "KNC"
        },
        2 => {
            proof {
                reveal_strlit("CVX");
            }
            "CVX"
        },
        3 => {
            proof {
                reveal_strlit("AGLD");
            }
            "AGLD"
        },
        4 => {
            proof {
                reveal_strlit("IOTA");
            }
            "IOTA"
        },
        5 => {
            proof {
                reveal_strlit("QTUM");
            }
            "QTUM"
        },
        6 => {
            proof {
                reveal_strlit("AXS");
            }
            "AXS"
        },
        7 => {
            proof {
                reveal_strlit("LQTY");
            }
            "LQTY"
        },
        8 => {
            proof {
                reveal_strlit("ETC");
            }
            "ETC"
        },
        9 => {
            proof {
                reveal_strlit("ASTR");
            }
            "ASTR"
        },
        10 => {
            proof {
                reveal_strlit("BCH");
            }
            "BCH"
        },
        11 => {
            proof {
                reveal_strlit("APT");
            }
            "APT"
        },
        12 => {
            proof {
                reveal_strlit("TRX");
            }
            "TRX"
        },
        13 => {
            proof {
                reveal_strlit("CELR");
            }
            "CELR"
        },
        14 => {
            proof {
                reveal_strlit("CELO");
            }
            "CELO"
        },
        15 => {
            proof {
                reveal_strlit("SAND");
            }
            "SAND"
        },
        16 => {
            proof {
                reveal_strlit("KLAY");
            }
            "KLAY"
        },
        17 => {
            proof {
                reveal_strlit("T");
            }
            "T"
        },
        18 => {
            proof {
                reveal_strlit("FLM");
            }
            "FLM"
        },
        19 => {
            proof {
                reveal_strlit("RAY");
            }
            "RAY"
        },
        20 => {
            proof {
                reveal_strlit("SOL");
            }
            "SOL"
        },
        21 => {
            proof {
                reveal_strlit("API3");
            }
            "API3"
        },
        22 => {
            proof {
                reveal_strlit("YFI");
            }
            "YFI"
        },
        23 => {
            proof {
                reveal_strlit("LDO");
            }
            "LDO"
        },
        24 => {
            proof {
                reveal_strlit("NMR");
            }
            "NMR"
        },
        25 => {
            proof {
                reveal_strlit("AAVE");
            }
            "AAVE"
        },
        26 => {
            proof {
                reveal_strlit("TRB");
            }
            "TRB"
        },
        27 => {
            proof {
                reveal_strlit("MATIC");
            }
            "MATIC"
        },
        28 => {
            proof {
                reveal_strlit("DOGE");
            }
            "DOGE"
        },
        29 => {
            proof {
                reveal_strlit("XRP");
            }
            "XRP"
        },
        30 => {
            proof {
                reveal_strlit("ENS");
            }
            "ENS"
        },
        31 => {
            proof {
                reveal_strlit("LPT");
            }
            "LPT"
        },
        32 => {
            proof {
                reveal_strlit("BNB");
            }
            "BNB"
        },
        33 => {
            proof {
                reveal_strlit("SPELL");
            }
            "SPELL"
        },
        34 => {
            proof {
                reveal_strlit("CRV");
            }
            "CRV"
        },
        35 => {
            proof {
                reveal_strlit("ARB");
            }
            "ARB"
        },
        36 => {
            proof {
                reveal_strlit("EGLD");
            }
            "EGLD"
        },
        37 => {
            proof {
                reveal_strlit("NEO");
            }
            "NEO"
        },
        38 => {
            proof {
                reveal_strlit("CHZ");
            }
            "CHZ"
        },
        39 => {
            proof {
                reveal_strlit("USDC");
            }
            "USDC"
        },
        40 => {
            proof {
                reveal_strlit("DOT");
            }
            "DOT"
        },
        41 => {
            proof {
                reveal_strlit("MINA");
            }
            "MINA"
        },
        42 => {
            proof {
                reveal_strlit("EOS");
            }
            "EOS"
        },
        43 => {
            proof {
                reveal_strlit("GMX");
            }
            "GMX"
        },
        44 => {
            proof {
                reveal_strlit("GRT");
            }
            "GRT"
        },
        45 => {
            proof {
                reveal_strlit("SKL");
            }
            "SKL"
        },
        46 => {
            proof {
                reveal_strlit("IOST");
            }
            "IOST"
        },
        47 => {
            proof {
                reveal_strlit("RDNT");
            }
            "RDNT"
        },
        48 => {
            proof {
                reveal_strlit("BTC");
            }
            "BTC"
        },
        49 => {
            proof {
                reveal_strlit("WOO");
            }
            "WOO"
        },
        50 => {
            proof {
                reveal_strlit("ACH");
            }
            "ACH"
        },
        51 => {
            proof {
                reveal_strlit("APE");
            }
            "APE"
        },
        52 => {
            proof {
                reveal_strlit("ID");
            }
            "ID"
        },
        53 => {
            proof {
                reveal_strlit("ADA");
            }
            "ADA"
        },
        54 => {
            proof {
                reveal_strlit("HNT");
            }
            "HNT"
        },
        55 => {
            proof {
                reveal_strlit("ALPHA");
            }
            "ALPHA"
        },
        56 => {
            proof {
                reveal_strlit("CFX");
            }
            "CFX"
        },
        57 => {
            proof {
                reveal_strlit("SRM");
            }
            "SRM"
        },
        58 => {
            proof {
                reveal_strlit("UNI");
            }
            "UNI"
        },
        59 => {
            proof {
                reveal_strlit("THETA");
            }
            "THETA"
        },
        60 => {
            proof {
                reveal_strlit("HBAR");
            }
            "HBAR"
        },
        61 => {
            proof {
                reveal_strlit("ZEC");
            }
            "ZEC"
        },
        62 => {
            proof {
                reveal_strlit("SUSHI");
            }
            "SUSHI"
        },
        63 => {
            proof {
                reveal_strlit("LTC");
            }
            "LTC"
        },
        64 => {
            proof {
                reveal_strlit("ICX");
            }
            "ICX"
        },
        65 => {
            proof {
                reveal_strlit("LINK");
            }
            "LINK"
        },
        66 => {
            proof {
                reveal_strlit("XTZ");
            }
            "XTZ"
        },
        67 => {
            proof {
                reveal_strlit("RVN");
            }
            "RVN"
        },
        68 => {
            proof {
                reveal_strlit("WLD");
            }
            "WLD"
        },
        69 => {
            proof {
                reveal_strlit("OP");
            }
            "OP"
        },
        70 => {
            proof {
                reveal_strlit("REN");
            }
            "REN"
        },
        71 => {
            proof {
                reveal_strlit("BLUR");
            }
            "BLUR"
        },
        72 => {
            proof {
                reveal_strlit("SUI");
            }
            "SUI"
        },
        73 => {
            proof {
                reveal_strlit("ICP");
            }
            "ICP"
        },
        74 => {
            proof {
                reveal_strlit("XMR");
            }
            "XMR"
        },
        75 => {
            proof {
                reveal_strlit("ZEN");
            }
            "ZEN"
        },
        76 => {
            proof {
                reveal_strlit("FTM");
            }
            "FTM"
        },
        77 => {
            proof {
                reveal_strlit("MAGIC");
            }
            "MAGIC"
        },
        78 => {
            proof {
                reveal_strlit("DGB");
            }
            "DGB"
        },
        79 => {
            proof {
                reveal_strlit("LRC");
            }
            "LRC"
        },
        80 => {
            proof {
                reveal_strlit("DYDX");
            }
            "DYDX"
        },
        81 => {
            proof {
                reveal_strlit("ZRX");
            }
            "ZRX"
        },
        82 => {
            proof {
                reveal_strlit("SC");
            }
            "SC"
        },
        83 => {
            proof {
                reveal_strlit("FIL");
            }
            "FIL"
        },
        84 => {
            proof {
                reveal_strlit("RSR");
            }
            "RSR"
        },
        85 => {
            proof {
                reveal_strlit("ETH");
            }
            "ETH"
        },
        86 => {
            proof {
                reveal_strlit("ONT");
            }
            "ONT"
        },
        87 => {
            proof {
                reveal_strlit("FXS");
            }
            "FXS"
        },
        88 => {
            proof {
                reveal_strlit("UMA");
            }
            "UMA"
        },
        89 => {
            proof {
                reveal_strlit("AR");
            }
            "AR"
        },
        90 => {
            proof {
                reveal_strlit("BAND");
            }
            "BAND"
        },
        91 => {
            proof {
                reveal_strlit("XLM");
            }
            "XLM"
        },
        92 => {
            proof {
                reveal_strlit("SNX");
            }
            "SNX"
        },
        93 => {
            proof {
                reveal_strlit("ATOM");
            }
            "ATOM"
        },
        94 => {
            proof {
                reveal_strlit("BAT");
            }
            "BAT"
        },
        95 => {
            proof {
                reveal_strlit("MANA");
            }
            "MANA"
        },
        96 => {
            proof {
                reveal_strlit("CVC");
            }
            "CVC"
        },
        97 => {
            proof {
                reveal_strlit("XEM");
            }
            "XEM"
        },
        98 => {
            proof {
                reveal_strlit("SSV");
            }
            "SSV"
        },
        99 => {
            proof {
                reveal_strlit("KSM");
            }
            "KSM"
        },
        100 => {
            proof {
                reveal_strlit("JOE");
            }
            "JOE"
        },
        101 => {
            proof {
                reveal_strlit("ETH");
            }
            "ETH"
        },
        102 => {
            proof {
                reveal_strlit("STORJ");
            }
            "STORJ"
        },
        103 => {
            proof {
                reveal_strlit("GMT");
            }
            "GMT"
        },
        104 => {
            proof {
                reveal_strlit("OMG");
            }
            "OMG"
        },
        105 => {
            proof {
                reveal_strlit("PEOPLE");
            }
            "PEOPLE"
        },
        106 => {
            proof {
                reveal_strlit("BAL");
            }
            "BAL"
        },
        107 => {
            proof {
                reveal_strlit("ZIL");
            }
            "ZIL"
        },
        108 => {
            proof {
                reveal_strlit("FLOW");
            }
            "FLOW"
        },
        109 => {
            proof {
                reveal_strlit("IMX");
            }
            "IMX"
        },
        110 => {
            proof {
                reveal_strlit("COMP");
            }
            "COMP"
        },
        111 => {
            proof {
                reveal_strlit("ALGO");
            }
            "ALGO"
        },
        112 => {
            proof {
                reveal_strlit("WAVES");
            }
            "WAVES"
        },
        113 => {
            proof {
                reveal_strlit("DASH");
            }
            "DASH"
        },
        114 => {
            proof {
                reveal_strlit("ENJ");
            }
            "ENJ"
        },
        115 => {
            proof {
                reveal_strlit("1INCH");
            }
            "1INCH"
        },
        116 => {
            proof {
                reveal_strlit("PERP");
            }
            "PERP"
        },
        117 => {
            proof {
                reveal_strlit("NEAR");
            }
            "NEAR"
        },
        118 => {
            proof {
                reveal_strlit("ANT");
            }
            "ANT"
        },
        119 => {
            proof {
                reveal_strlit("GAL");
            }
            "GAL"
        },
        120 => {
            proof {
                reveal_strlit("ONE");
            }
            "ONE"
        },
        121 => {
            proof {
                reveal_strlit("MKR");
            }
            "MKR"
        },
        122 => {
            proof {
                reveal_strlit("GALA");
            }
            "GALA"
        },
        123 => {
            proof {
                reveal_strlit("AVAX");
            }
            "AVAX"
        },
        124 => {
            proof {
                reveal_strlit("MASK");
            }
            "MASK"
        },
        _ => {
            proof {
                reveal_strlit("STX");
            }
            "STX"
        },
    };
    (base, quote)
}
/// `-SWAP`, the suffix of a dashed perpetual-swap symbol.
pub open spec fn dashed_swap_suffix() -> Seq<char> {
    seq!['-', 'S', 'W', 'A', 'P']
}

/// `SWAP`, the suffix of a joined perpetual-swap symbol.
pub open spec fn joined_swap_suffix() -> Seq<char> {
    seq!['S', 'W', 'A', 'P']
}

/// Spot symbol of pair `i` in dashed form: `BASE-QUOTE`.
pub open spec fn dashed(i: int) -> Seq<char> {
    pair_base(i) + seq!['-'] + pair_quote(i)
}

/// Swap symbol of pair `i` in dashed form: `BASE-QUOTE-SWAP`.
pub open spec fn dashed_swap(i: int) -> Seq<char> {
    dashed(i) + dashed_swap_suffix()
}

/// Spot symbol of pair `i` in joined form: `BASEQUOTE`.
pub open spec fn joined(i: int) -> Seq<char> {
    pair_base(i) + pair_quote(i)
}

/// Swap symbol of pair `i` in joined form: `BASEQUOTESWAP`.
pub open spec fn joined_swap(i: int) -> Seq<char> {
    joined(i) + joined_swap_suffix()
}

/// Scanning the pairs from `i` on, the joined symbol of the first pair whose
/// dashed symbol (spot or swap) is `v`.
pub open spec fn dashed_to_joined(v: Seq<char>, i: int) -> Option<Seq<char>>
    decreases PAIR_COUNT - i,
{
    if i < 0 || i >= PAIR_COUNT {
        None
    } else if v == dashed(i) {
        Some(joined(i))
    } else if v == dashed_swap(i) {
        Some(joined_swap(i))
    } else {
        dashed_to_joined(v, i + 1)
    }
}

/// Scanning the pairs from `i` on, the dashed symbol of the first pair whose
/// joined symbol (spot or swap) is `v`.
pub open spec fn joined_to_dashed(v: Seq<char>, i: int) -> Option<Seq<char>>
    decreases PAIR_COUNT - i,
{
    if i < 0 || i >= PAIR_COUNT {
        None
    } else if v == joined(i) {
        Some(dashed(i))
    } else if v == joined_swap(i) {
        Some(dashed_swap(i))
    } else {
        joined_to_dashed(v, i + 1)
    }
}

/// The characters of `s`, in a vector.
pub(crate) fn chars_of(s: &str) -> (r: Vec<char>)
    ensures
        r@ == s@,
{
    let n: usize = s.unicode_len();
    let mut r: Vec<char> = Vec::new();
    let mut i: usize = 0;
    while i < n
        invariant
            i <= n == s@.len(),
            r@ == s@.subrange(0, i as int),
        decreases n - i,
    {
        r.push(s.get_char(i));
        i = i + 1;
        assert(r@ =~= s@.subrange(0, i as int));
    }
    assert(r@ =~= s@);
    r
}

/// Whether `c` occurs in `s`.
pub(crate) fn has_char(s: &Vec<char>, c: char) -> (r: bool)
    ensures
        r == s@.contains(c),
{
    let mut i: usize = 0;
    while i < s.len()
        invariant
            i <= s.len(),
            forall|k: int| 0 <= k < i ==> s@[k] != c,
        decreases s.len() - i,
    {
        if s[i] == c {
            assert(s@[i as int] == c);
            return true;
        }
        i = i + 1;
    }
    false
}

/// Whether `s` ends with `SWAP`.
pub open spec fn ends_with_swap(s: Seq<char>) -> bool {
    s.len() >= 4 && s.subrange(s.len() - 4, s.len() as int) == joined_swap_suffix()
}

/// Whether `SWAP` occurs in `s` at position `i`.
pub(crate) fn swap_at(s: &Vec<char>, i: usize) -> (r: bool)
    requires
        i + 4 <= s.len(),
    ensures
        r == (s@.subrange(i as int, i + 4) == joined_swap_suffix()),
{
    let r = s[i] == 'S' && s[i + 1] == 'W' && s[i + 2] == 'A' && s[i + 3] == 'P';
    if r {
        assert(s@.subrange(i as int, i + 4) =~= joined_swap_suffix());
    } else {
        assert(s@.subrange(i as int, i + 4)[0] == s@[i as int]);
        assert(s@.subrange(i as int, i + 4)[1] == s@[i + 1]);
        assert(s@.subrange(i as int, i + 4)[2] == s@[i + 2]);
        assert(s@.subrange(i as int, i + 4)[3] == s@[i + 3]);
    }
    r
}

/// Whether `s` ends with `SWAP`.
pub(crate) fn ends_in_swap(s: &Vec<char>) -> (r: bool)
    ensures
        r == ends_with_swap(s@),
{
    if s.len() < 4 {
        false
    } else {
        swap_at(s, s.len() - 4)
    }
}

/// `s` with every `-` taken out.
pub open spec fn without_dashes(s: Seq<char>) -> Seq<char>
    decreases s.len(),
{
    if s.len() == 0 {
        Seq::empty()
    } else {
        let rest = without_dashes(s.drop_last());
        if s.last() == '-' {
            rest
        } else {
            rest.push(s.last())
        }
    }
}

/// `s` with each `USDT` replaced by `rep`, the occurrences taken from the
/// front and never overlapping.
pub open spec fn replace_usdt(s: Seq<char>, rep: Seq<char>) -> Seq<char>
    decreases s.len(),
{
    if s.len() == 0 {
        Seq::empty()
    } else if s.len() >= 4 && s.subrange(0, 4) == usdt() {
        rep + replace_usdt(s.subrange(4, s.len() as int), rep)
    } else {
        seq![s[0]] + replace_usdt(s.drop_first(), rep)
    }
}

/// `-USDT`, what `USDT` becomes in a dashed spot symbol.
pub open spec fn dashed_usdt() -> Seq<char> {
    seq!['-', 'U', 'S', 'D', 'T']
}

/// `-USDT-`, what `USDT` becomes in a dashed swap symbol.
pub open spec fn dashed_usdt_swap() -> Seq<char> {
    seq!['-', 'U', 'S', 'D', 'T', '-']
}

/// The mapping of a symbol outside the listed pairs: a dashed symbol loses
/// its dashes; a joined symbol ending in `SWAP` gets `-USDT-` in place of
/// each `USDT`; any other joined symbol gets `-USDT` in place of each `USDT`.
pub open spec fn dash_rule(v: Seq<char>) -> Seq<char> {
    if v.contains('-') {
        without_dashes(v)
    } else if ends_with_swap(v) {
        replace_usdt(v, dashed_usdt_swap())
    } else {
        replace_usdt(v, dashed_usdt())
    }
}

/// The symbol that `v` maps to: a listed dashed symbol maps to its joined
/// form, a listed joined symbol to its dashed form, anything else by
/// [`dash_rule`].
pub open spec fn mapped_symbol(v: Seq<char>) -> Seq<char> {
    match dashed_to_joined(v, 0) {
        Some(r) => r,
        None => match joined_to_dashed(v, 0) {
            Some(r) => r,
            None => dash_rule(v),
        },
    }
}

/// Whether `USDT` occurs in `s` at position `i`.
fn usdt_at(s: &Vec<char>, i: usize) -> (r: bool)
    requires
        i + 4 <= s.len(),
    ensures
        r == (s@.subrange(i as int, i + 4) == usdt()),
{
    let r = s[i] == 'U' && s[i + 1] == 'S' && s[i + 2] == 'D' && s[i + 3] == 'T';
    if r {
        assert(s@.subrange(i as int, i + 4) =~= usdt());
    } else {
        assert(s@.subrange(i as int, i + 4)[0] == s@[i as int]);
        assert(s@.subrange(i as int, i + 4)[1] == s@[i + 1]);
        assert(s@.subrange(i as int, i + 4)[2] == s@[i + 2]);
        assert(s@.subrange(i as int, i + 4)[3] == s@[i + 3]);
    }
    r
}

/// `value`, whose characters are `chars`, with every `-` taken out.
fn drop_dashes(value: &str, chars: &Vec<char>) -> (r: String)
    requires
        chars@ == value@,
    ensures
        r@ == without_dashes(value@),
{
    let n: usize = chars.len();
    let mut r = String::new();
    let mut i: usize = 0;
    while i < n
        invariant
            i <= n == chars.len() == value@.len(),
            chars@ == value@,
            r@ == without_dashes(value@.subrange(0, i as int)),
        decreases n - i,
    {
        assert(value@.subrange(0, i + 1).drop_last() =~= value@.subrange(0, i as int));
        if chars[i] != '-' {
            let c = value.substring_char(i, i + 1);
            assert(c@ =~= seq![value@[i as int]]);
            r.append(c);
        }
        i = i + 1;
    }
    assert(value@.subrange(0, n as int) =~= value@);
    r
}

/// `value`, whose characters are `chars`, with each `USDT` replaced by `rep`
/// as [`replace_usdt`] says.
fn replace_usdt_with(value: &str, chars: &Vec<char>, rep: &str) -> (r: String)
    requires
        chars@ == value@,
    ensures
        r@ == replace_usdt(value@, rep@),
{
    let n: usize = chars.len();
    let mut r = String::new();
    let mut i: usize = 0;
    assert(value@.subrange(0, n as int) =~= value@);
    while i < n
        invariant
            i <= n == chars.len() == value@.len(),
            chars@ == value@,
            r@ + replace_usdt(value@.subrange(i as int, n as int), rep@) == replace_usdt(
                value@,
                rep@,
            ),
        decreases n - i,
    {
        let ghost tail = value@.subrange(i as int, n as int);
        let ghost before = r@;
        if n - i >= 4 && usdt_at(chars, i) {
            assert(tail.subrange(0, 4) =~= value@.subrange(i as int, i + 4));
            assert(tail.subrange(4, tail.len() as int) =~= value@.subrange(i + 4, n as int));
            r.append(rep);
            assert(before + replace_usdt(tail, rep@) =~= r@ + replace_usdt(
                value@.subrange(i + 4, n as int),
                rep@,
            ));
            i = i + 4;
        } else {
            if n - i >= 4 {
                assert(tail.subrange(0, 4) =~= value@.subrange(i as int, i + 4));
            }
            assert(tail.drop_first() =~= value@.subrange(i + 1, n as int));
            let c = value.substring_char(i, i + 1);
            assert(c@ =~= seq![tail[0]]);
            r.append(c);
            assert(before + replace_usdt(tail, rep@) =~= r@ + replace_usdt(
                value@.subrange(i + 1, n as int),
                rep@,
            ));
            i = i + 1;
        }
    }
    assert(value@.subrange(n as int, n as int) =~= Seq::<char>::empty());
    assert(r@ + Seq::<char>::empty() =~= r@);
    r
}

/// `a`, then `b`, `c` and `d`, as one string.
fn join4(a: &str, b: &str, c: &str, d: &str) -> (r: String)
    ensures
        r@ == a@ + b@ + c@ + d@,
{
    let mut s = String::from_str(a);
    s.append(b);
    s.append(c);
    s.append(d);
    s
}

/// Maps a product symbol between its dashed and its joined form:
/// `BTC-USDT` <-> `BTCUSDT`, `BTC-USDT-SWAP` <-> `BTCUSDTSWAP`.
/// The listed pairs are looked up; any other symbol is mapped by the same
/// rule: dashes are dropped, or `-USDT` (`-USDT-` before `SWAP`) is put in
/// place of `USDT`.
pub fn product_mapping(value: &str) -> (r: String)
    ensures
        r@ == mapped_symbol(value@),
{
    let v = String::from_str(value);
    let mut i: usize = 0;
    while i < PAIR_COUNT
        invariant
            i <= PAIR_COUNT,
            v@ == value@,
            dashed_to_joined(value@, 0) == dashed_to_joined(value@, i as int),
        decreases PAIR_COUNT - i,
    {
        proof {
            reveal_strlit("-");
            reveal_strlit("");
            reveal_strlit("-SWAP");
            reveal_strlit("SWAP");
        }
        let (base, quote) = pair_symbols(i);
        let d = join4(base, "-", quote, "");
        assert(d@ =~= dashed(i as int));
        if d == v {
            let r = join4(base, "", quote, "");
            assert(r@ =~= joined(i as int));
            return r;
        }
        let ds = join4(base, "-", quote, "-SWAP");
        assert(ds@ =~= dashed_swap(i as int));
        if ds == v {
            let r = join4(base, "", quote, "SWAP");
            assert(r@ =~= joined_swap(i as int));
            return r;
        }
        i = i + 1;
    }
    let mut i: usize = 0;
    while i < PAIR_COUNT
        invariant
            i <= PAIR_COUNT,
            v@ == value@,
            dashed_to_joined(value@, 0) is None,
            joined_to_dashed(value@, 0) == joined_to_dashed(value@, i as int),
        decreases PAIR_COUNT - i,
    {
        proof {
            reveal_strlit("-");
            reveal_strlit("");
            reveal_strlit("-SWAP");
            reveal_strlit("SWAP");
        }
        let (base, quote) = pair_symbols(i);
        let j = join4(base, "", quote, "");
        assert(j@ =~= joined(i as int));
        if j == v {
            let r = join4(base, "-", quote, "");
            assert(r@ =~= dashed(i as int));
            return r;
        }
        let js = join4(base, "", quote, "SWAP");
        assert(js@ =~= joined_swap(i as int));
        if js == v {
            let r = join4(base, "-", quote, "-SWAP");
            assert(r@ =~= dashed_swap(i as int));
            return r;
        }
        i = i + 1;
    }
    let chars = chars_of(value);
    if has_char(&chars, '-') {
        drop_dashes(value, &chars)
    } else if ends_in_swap(&chars) {
        proof {
            reveal_strlit("-USDT-");
        }
        let rep = "-USDT-";
        assert(rep@ =~= dashed_usdt_swap());
        replace_usdt_with(value, &chars, rep)
    } else {
        proof {
            reveal_strlit("-USDT");
        }
        let rep = "-USDT";
        assert(rep@ =~= dashed_usdt());
        replace_usdt_with(value, &chars, rep)
    }
}


/// `s` holds no `-`.
pub open spec fn no_dash(s: Seq<char>) -> bool {
    forall|k: int| 0 <= k < s.len() ==> s[k] != '-'
}

/// Every listed base symbol is free of `-`, and every quote is USDT or BTC.
proof fn lemma_pair_well_formed(i: int)
    requires
        0 <= i < PAIR_COUNT,
    ensures
        no_dash(pair_base(i)),
        pair_quote(i) == usdt() || pair_quote(i) == btc(),
{
}


/// A `-` that follows a dash-free prefix marks where that prefix ends.
proof fn lemma_dash_split(b1: Seq<char>, r1: Seq<char>, b2: Seq<char>, r2: Seq<char>)
    requires
        no_dash(b1),
        no_dash(b2),
        b1 + seq!['-'] + r1 == b2 + seq!['-'] + r2,
    ensures
        b1 == b2,
        r1 == r2,
{
    let x = b1 + seq!['-'] + r1;
    let y = b2 + seq!['-'] + r2;
    if b1.len() < b2.len() {
        assert(x[b1.len() as int] == '-');
        assert(y[b1.len() as int] == b2[b1.len() as int]);
    } else if b1.len() > b2.len() {
        assert(y[b2.len() as int] == '-');
        assert(x[b2.len() as int] == b1[b2.len() as int]);
    }
    assert(b1 =~= x.subrange(0, b1.len() as int));
    assert(b2 =~= y.subrange(0, b2.len() as int));
    assert(r1 =~= x.subrange(b1.len() as int + 1, x.len() as int));
    assert(r2 =~= y.subrange(b2.len() as int + 1, y.len() as int));
}

/// The joined symbols of two listed pairs agree only when the pairs do.
proof fn lemma_joined_injective(i: int, j: int)
    requires
        0 <= i < PAIR_COUNT,
        0 <= j < PAIR_COUNT,
        joined(i) == joined(j),
    ensures
        pair_base(i) == pair_base(j),
        pair_quote(i) == pair_quote(j),
{
    lemma_pair_well_formed(i);
    lemma_pair_well_formed(j);
    let x = joined(i);
    if pair_quote(i) == pair_quote(j) {
        let n: int = x.len() - pair_quote(i).len();
        assert(pair_base(i) =~= x.subrange(0, n));
        assert(pair_base(j) =~= joined(j).subrange(0, n));
    } else {
        assert(x[x.len() - 1] == pair_quote(i)[pair_quote(i).len() - 1]);
        assert(joined(j)[joined(j).len() - 1] == pair_quote(j)[pair_quote(j).len() - 1]);
    }
}

/// A joined spot symbol ends in `T` or `C`, never in the `P` of a swap symbol.
proof fn lemma_joined_not_swap(i: int, j: int)
    requires
        0 <= i < PAIR_COUNT,
        0 <= j < PAIR_COUNT,
    ensures
        joined(i) != joined_swap(j),
{
    lemma_pair_well_formed(i);
    let x = joined(i);
    let y = joined_swap(j);
    assert(x[x.len() - 1] == pair_quote(i)[pair_quote(i).len() - 1]);
    assert(y[y.len() - 1] == 'P');
}

/// Joined symbols hold no `-`.
proof fn lemma_joined_no_dash(i: int)
    requires
        0 <= i < PAIR_COUNT,
    ensures
        no_dash(joined(i)),
        no_dash(joined_swap(i)),
{
    lemma_pair_well_formed(i);
    let b = pair_base(i);
    let q = pair_quote(i);
    assert forall|k: int| 0 <= k < joined(i).len() implies joined(i)[k] != '-' by {
        if k < b.len() {
            assert(joined(i)[k] == b[k]);
        } else {
            assert(joined(i)[k] == q[k - b.len()]);
        }
    }
    assert forall|k: int| 0 <= k < joined_swap(i).len() implies joined_swap(i)[k] != '-' by {
        if k < joined(i).len() {
            assert(joined_swap(i)[k] == joined(i)[k]);
        } else {
            assert(joined_swap(i)[k] == joined_swap_suffix()[k - joined(i).len()]);
        }
    }
}

/// A symbol without `-` is no listed dashed symbol.
proof fn lemma_dash_free_not_dashed(v: Seq<char>, i: int)
    requires
        no_dash(v),
        0 <= i,
    ensures
        dashed_to_joined(v, i) is None,
    decreases PAIR_COUNT - i,
{
    if i < PAIR_COUNT {
        let n: int = pair_base(i).len() as int;
        assert(dashed(i)[n] == '-');
        assert(dashed_swap(i)[n] == dashed(i)[n]);
        lemma_dash_free_not_dashed(v, i + 1);
    }
}

/// Scanning from any pair up to `j`, the dashed symbols of pair `j` map to
/// its joined symbols.
proof fn lemma_dashed_maps_to_joined(j: int, i: int)
    requires
        0 <= i <= j < PAIR_COUNT,
    ensures
        dashed_to_joined(dashed(j), i) == Some(joined(j)),
        dashed_to_joined(dashed_swap(j), i) == Some(joined_swap(j)),
    decreases j - i,
{
    lemma_pair_well_formed(i);
    lemma_pair_well_formed(j);
    let bi = pair_base(i);
    let qi = pair_quote(i);
    let bj = pair_base(j);
    let qj = pair_quote(j);
    let sfx = dashed_swap_suffix();
    assert(dashed_swap(i) =~= bi + seq!['-'] + (qi + sfx));
    assert(dashed_swap(j) =~= bj + seq!['-'] + (qj + sfx));
    assert((qi + sfx)[qi.len() as int] == '-');
    assert((qj + sfx)[qj.len() as int] == '-');
    if dashed(j) == dashed(i) {
        lemma_dash_split(bj, qj, bi, qi);
    } else if dashed(j) == dashed_swap(i) {
        lemma_dash_split(bj, qj, bi, qi + sfx);
    } else {
        lemma_dashed_maps_to_joined(j, i + 1);
    }
    if dashed_swap(j) == dashed(i) {
        lemma_dash_split(bj, qj + sfx, bi, qi);
    } else if dashed_swap(j) == dashed_swap(i) {
        lemma_dash_split(bj, qj + sfx, bi, qi + sfx);
        assert(qj =~= (qj + sfx).subrange(0, qj.len() as int));
        assert(qi =~= (qi + sfx).subrange(0, qi.len() as int));
    } else {
        lemma_dashed_maps_to_joined(j, i + 1);
    }
}

/// Scanning from any pair up to `j`, the joined symbols of pair `j` map to
/// its dashed symbols.
proof fn lemma_joined_maps_to_dashed(j: int, i: int)
    requires
        0 <= i <= j < PAIR_COUNT,
    ensures
        joined_to_dashed(joined(j), i) == Some(dashed(j)),
        joined_to_dashed(joined_swap(j), i) == Some(dashed_swap(j)),
    decreases j - i,
{
    lemma_joined_not_swap(j, i);
    lemma_joined_not_swap(i, j);
    if joined(j) == joined(i) {
        lemma_joined_injective(j, i);
    } else {
        lemma_joined_maps_to_dashed(j, i + 1);
    }
    if joined_swap(j) == joined_swap(i) {
        let n: int = joined(j).len() as int;
        assert(joined(j) =~= joined_swap(j).subrange(0, n));
        assert(joined_swap(i).len() == joined(i).len() + 4);
        assert(joined_swap(j).len() == n + 4);
        assert(joined(i) =~= joined_swap(i).subrange(0, n));
        lemma_joined_injective(j, i);
    } else if joined_swap(j) != joined(i) {
        lemma_joined_maps_to_dashed(j, i + 1);
    }
}

/// A dashed symbol found by the scan from `i` is that of some pair at or after `i`.
proof fn lemma_dashed_witness(v: Seq<char>, i: int) -> (j: int)
    requires
        0 <= i,
        dashed_to_joined(v, i) is Some,
    ensures
        i <= j < PAIR_COUNT,
        (v == dashed(j) && dashed_to_joined(v, i) == Some(joined(j)))
            || (v == dashed_swap(j) && dashed_to_joined(v, i) == Some(joined_swap(j))),
    decreases PAIR_COUNT - i,
{
    if v == dashed(i) || v == dashed_swap(i) {
        i
    } else {
        lemma_dashed_witness(v, i + 1)
    }
}

/// A joined symbol found by the scan from `i` is that of some pair at or after `i`.
proof fn lemma_joined_witness(v: Seq<char>, i: int) -> (j: int)
    requires
        0 <= i,
        joined_to_dashed(v, i) is Some,
    ensures
        i <= j < PAIR_COUNT,
        (v == joined(j) && joined_to_dashed(v, i) == Some(dashed(j)))
            || (v == joined_swap(j) && joined_to_dashed(v, i) == Some(dashed_swap(j))),
    decreases PAIR_COUNT - i,
{
    if v == joined(i) || v == joined_swap(i) {
        i
    } else {
        lemma_joined_witness(v, i + 1)
    }
}

/// Whether `v` is one of the four symbols of a listed pair.
pub open spec fn is_listed(v: Seq<char>) -> bool {
    exists|i: int|
        0 <= i < PAIR_COUNT && (v == dashed(i) || v == dashed_swap(i) || v == joined(i) || v
            == joined_swap(i))
}

/// The four symbols of each listed pair map to each other: `BASE-QUOTE` <->
/// `BASEQUOTE` and `BASE-QUOTE-SWAP` <-> `BASEQUOTESWAP`.
pub proof fn lemma_listed_maps(i: int)
    requires
        0 <= i < PAIR_COUNT,
    ensures
        mapped_symbol(dashed(i)) == joined(i),
        mapped_symbol(dashed_swap(i)) == joined_swap(i),
        mapped_symbol(joined(i)) == dashed(i),
        mapped_symbol(joined_swap(i)) == dashed_swap(i),
{
    lemma_dashed_maps_to_joined(i, 0);
    lemma_joined_maps_to_dashed(i, 0);
    lemma_joined_no_dash(i);
    lemma_dash_free_not_dashed(joined(i), 0);
    lemma_dash_free_not_dashed(joined_swap(i), 0);
}

/// A symbol that is not listed is mapped by [`dash_rule`].
pub proof fn lemma_unlisted_by_rule(v: Seq<char>)
    requires
        !is_listed(v),
    ensures
        mapped_symbol(v) == dash_rule(v),
{
    if dashed_to_joined(v, 0) is Some {
        let j: int = lemma_dashed_witness(v, 0);
        assert(0 <= j < PAIR_COUNT && (v == dashed(j) || v == dashed_swap(j)));
    }
    if joined_to_dashed(v, 0) is Some {
        let j: int = lemma_joined_witness(v, 0);
        assert(0 <= j < PAIR_COUNT && (v == joined(j) || v == joined_swap(j)));
    }
}

/// `USDT` occurs in `s` at position `k`.
pub open spec fn usdt_at_spec(s: Seq<char>, k: int) -> bool {
    0 <= k && k + 4 <= s.len() && s.subrange(k, k + 4) == usdt()
}

/// `s` holds no `USDT`.
pub open spec fn free_of_usdt(s: Seq<char>) -> bool {
    forall|k: int| !#[trigger] usdt_at_spec(s, k)
}

/// Whether `v` is `BASE-USDT`, `BASE-USDT-SWAP`, `BASEUSDT` or
/// `BASEUSDTSWAP` for a base symbol that holds neither `-` nor `USDT`.
pub open spec fn usdt_shaped(v: Seq<char>) -> bool {
    exists|b: Seq<char>|
        no_dash(b) && free_of_usdt(b) && (v == b + seq!['-'] + usdt() || v == b + seq!['-']
            + usdt() + dashed_swap_suffix() || v == b + usdt() || v == b + usdt()
            + joined_swap_suffix())
}

/// Taking the dashes out of two joined pieces takes them out of each.
proof fn lemma_without_dashes_concat(x: Seq<char>, y: Seq<char>)
    ensures
        without_dashes(x + y) == without_dashes(x) + without_dashes(y),
    decreases y.len(),
{
    if y.len() == 0 {
        assert(x + y =~= x);
        assert(without_dashes(x) + without_dashes(y) =~= without_dashes(x));
    } else {
        let z = x + y;
        assert(z.drop_last() =~= x + y.drop_last());
        assert(z.last() == y.last());
        lemma_without_dashes_concat(x, y.drop_last());
        if y.last() != '-' {
            assert(without_dashes(x) + without_dashes(y) =~= (without_dashes(x) + without_dashes(
                y.drop_last(),
            )).push(y.last()));
        }
    }
}

/// A text without `-` keeps all of itself.
proof fn lemma_without_dashes_plain(x: Seq<char>)
    requires
        no_dash(x),
    ensures
        without_dashes(x) == x,
    decreases x.len(),
{
    if x.len() > 0 {
        lemma_without_dashes_plain(x.drop_last());
        assert(x.drop_last().push(x.last()) =~= x);
    }
}

/// A `-` alone leaves nothing.
proof fn lemma_without_dashes_dash()
    ensures
        without_dashes(seq!['-']) == Seq::<char>::empty(),
{
    let d: Seq<char> = seq!['-'];
    assert(d.drop_last() =~= Seq::<char>::empty());
    assert(d.last() == '-');
    assert(without_dashes(Seq::<char>::empty()) == Seq::<char>::empty());
}

/// Two dash-free texts make a dash-free text.
proof fn lemma_no_dash_concat(x: Seq<char>, y: Seq<char>)
    requires
        no_dash(x),
        no_dash(y),
    ensures
        no_dash(x + y),
{
    assert forall|k: int| 0 <= k < (x + y).len() implies (x + y)[k] != '-' by {
        if k >= x.len() {
            assert((x + y)[k] == y[k - x.len()]);
        }
    }
}

/// Replacing in a text without `U` changes nothing.
proof fn lemma_replace_plain(s: Seq<char>, rep: Seq<char>)
    requires
        forall|k: int| 0 <= k < s.len() ==> s[k] != 'U',
    ensures
        replace_usdt(s, rep) == s,
    decreases s.len(),
{
    if s.len() > 0 {
        if s.len() >= 4 {
            assert(s.subrange(0, 4)[0] != usdt()[0]);
        }
        lemma_replace_plain(s.drop_first(), rep);
        assert(seq![s[0]] + s.drop_first() =~= s);
    }
}

/// Replacing in a text that starts with `USDT` puts `rep` first.
proof fn lemma_replace_front(t: Seq<char>, rep: Seq<char>)
    ensures
        replace_usdt(usdt() + t, rep) == rep + replace_usdt(t, rep),
{
    let s = usdt() + t;
    assert(s.subrange(0, 4) =~= usdt());
    assert(s.subrange(4, s.len() as int) =~= t);
}

/// Where `USDT` starts nowhere in `b + t` before `t`, the replacing leaves
/// `b` as it is.
proof fn lemma_replace_prefix(b: Seq<char>, t: Seq<char>, rep: Seq<char>)
    requires
        forall|k: int| 0 <= k < b.len() ==> !#[trigger] usdt_at_spec(b + t, k),
    ensures
        replace_usdt(b + t, rep) == b + replace_usdt(t, rep),
    decreases b.len(),
{
    if b.len() == 0 {
        assert(b + t =~= t);
        assert(b + replace_usdt(t, rep) =~= replace_usdt(t, rep));
    } else {
        let s = b + t;
        assert(!usdt_at_spec(s, 0));
        let b1 = b.drop_first();
        assert(s.drop_first() =~= b1 + t);
        assert forall|k: int| 0 <= k < b1.len() implies !#[trigger] usdt_at_spec(b1 + t, k) by {
            assert(!usdt_at_spec(s, k + 1));
            if k + 4 <= (b1 + t).len() {
                assert((b1 + t).subrange(k, k + 4) =~= s.subrange(k + 1, k + 5));
            }
        }
        lemma_replace_prefix(b1, t, rep);
        assert(seq![s[0]] + (b1 + replace_usdt(t, rep)) =~= b + replace_usdt(t, rep));
    }
}

/// A text free of `USDT` followed by one that starts with `U` has no `USDT`
/// starting inside the first.
proof fn lemma_no_straddle(b: Seq<char>, t: Seq<char>)
    requires
        free_of_usdt(b),
        t.len() >= 1,
        t[0] == 'U',
    ensures
        forall|k: int| 0 <= k < b.len() ==> !#[trigger] usdt_at_spec(b + t, k),
{
    assert forall|k: int| 0 <= k < b.len() implies !#[trigger] usdt_at_spec(b + t, k) by {
        let s = b + t;
        if usdt_at_spec(s, k) {
            if k + 4 <= b.len() {
                assert(s.subrange(k, k + 4) =~= b.subrange(k, k + 4));
                assert(usdt_at_spec(b, k));
            } else {
                let d: int = b.len() - k;
                assert(s[b.len() as int] == 'U');
                assert(s.subrange(k, k + 4)[d] == s[b.len() as int]);
                assert(usdt()[d] != 'U');
            }
        }
    }
}

/// `b + USDT` with `rep` in place of each `USDT`, for `b` free of `USDT`.
proof fn lemma_replace_tail(b: Seq<char>, t: Seq<char>, rep: Seq<char>)
    requires
        free_of_usdt(b),
        forall|k: int| 0 <= k < t.len() ==> t[k] != 'U',
    ensures
        replace_usdt(b + (usdt() + t), rep) == b + rep + t,
{
    lemma_no_straddle(b, usdt() + t);
    lemma_replace_prefix(b, usdt() + t, rep);
    lemma_replace_front(t, rep);
    lemma_replace_plain(t, rep);
    assert(b + (rep + t) =~= b + rep + t);
}

/// The joined USDT spot symbol of a listed pair fixes the pair's dashed form.
proof fn lemma_joined_usdt(b: Seq<char>, j: int)
    requires
        0 <= j < PAIR_COUNT,
        b + usdt() == joined(j),
    ensures
        dashed(j) == b + seq!['-'] + usdt(),
{
    lemma_pair_well_formed(j);
    let x = joined(j);
    assert(x[x.len() - 1] == (b + usdt())[b.len() as int + 3]);
    assert(x[x.len() - 1] == pair_quote(j)[pair_quote(j).len() - 1]);
    let n: int = x.len() - 4;
    assert(pair_base(j) =~= x.subrange(0, n));
    assert(b =~= (b + usdt()).subrange(0, n));
}

/// A symbol with a `-` in it is no joined symbol of a listed pair.
proof fn lemma_dashed_not_joined(v: Seq<char>, j: int)
    requires
        0 <= j < PAIR_COUNT,
        v.contains('-'),
    ensures
        v != joined(j),
        v != joined_swap(j),
{
    lemma_joined_no_dash(j);
}

/// A symbol without `-` is no dashed symbol of a listed pair.
proof fn lemma_plain_not_dashed(v: Seq<char>, j: int)
    requires
        0 <= j < PAIR_COUNT,
        no_dash(v),
    ensures
        v != dashed(j),
        v != dashed_swap(j),
{
    let n: int = pair_base(j).len() as int;
    assert(dashed(j)[n] == '-');
    assert(dashed_swap(j)[n] == dashed(j)[n]);
}

/// Mapping a symbol of a listed pair, or a USDT symbol of the documented
/// shape, and mapping the result again gives back the symbol:
/// `BTC-USDT` -> `BTCUSDT` -> `BTC-USDT`, and `BTCUSDTSWAP` ->
/// `BTC-USDT-SWAP` -> `BTCUSDTSWAP`.
pub proof fn lemma_mapping_round_trip(v: Seq<char>)
    requires
        is_listed(v) || usdt_shaped(v),
    ensures
        mapped_symbol(mapped_symbol(v)) == v,
{
    if is_listed(v) {
        let i: int = choose|i: int|
            0 <= i < PAIR_COUNT && (v == dashed(i) || v == dashed_swap(i) || v == joined(i) || v
                == joined_swap(i));
        lemma_listed_maps(i);
    } else {
        let b: Seq<char> = choose|b: Seq<char>|
            no_dash(b) && free_of_usdt(b) && (v == b + seq!['-'] + usdt() || v == b + seq!['-']
                + usdt() + dashed_swap_suffix() || v == b + usdt() || v == b + usdt()
                + joined_swap_suffix());
        lemma_round_trip_unlisted(v, b);
    }
}

/// The round trip for a USDT symbol of the documented shape that no listed
/// pair has.
proof fn lemma_round_trip_unlisted(v: Seq<char>, b: Seq<char>)
    requires
        !is_listed(v),
        no_dash(b),
        free_of_usdt(b),
        v == b + seq!['-'] + usdt() || v == b + seq!['-'] + usdt() + dashed_swap_suffix() || v
            == b + usdt() || v == b + usdt() + joined_swap_suffix(),
    ensures
        mapped_symbol(mapped_symbol(v)) == v,
{
    let u = usdt();
    let sw = joined_swap_suffix();
    let dsw = dashed_swap_suffix();
    let dash = seq!['-'];
    lemma_unlisted_by_rule(v);
    assert(no_dash(u));
    assert(no_dash(sw));
    lemma_no_dash_concat(b, u);
    lemma_no_dash_concat(b + u, sw);
    lemma_without_dashes_dash();
    lemma_without_dashes_plain(b);
    lemma_without_dashes_plain(u);
    lemma_without_dashes_plain(sw);
    assert(dsw =~= dash + sw);
    lemma_without_dashes_concat(dash, sw);
    assert(without_dashes(dsw) =~= sw);
    assert forall|k: int| 0 <= k < sw.len() implies sw[k] != 'U' by {}
    assert forall|k: int| 0 <= k < Seq::<char>::empty().len() implies Seq::<char>::empty()[k]
        != 'U' by {}
    if v == b + dash + u {
        assert(v[b.len() as int] == '-');
        lemma_without_dashes_concat(b, dash);
        lemma_without_dashes_concat(b + dash, u);
        let w = b + u;
        assert(mapped_symbol(v) == w);
        assert(!is_listed(w)) by {
            if is_listed(w) {
                let j: int = choose|j: int|
                    0 <= j < PAIR_COUNT && (w == dashed(j) || w == dashed_swap(j) || w == joined(j)
                        || w == joined_swap(j));
                lemma_plain_not_dashed(w, j);
                if w == joined(j) {
                    lemma_joined_usdt(b, j);
                } else {
                    assert(w[w.len() - 1] == 'T');
                    assert(joined_swap(j)[joined_swap(j).len() - 1] == 'P');
                }
            }
        }
        lemma_unlisted_by_rule(w);
        assert(!w.contains('-'));
        assert(w[w.len() - 1] == 'T');
        assert(!ends_with_swap(w)) by {
            if ends_with_swap(w) {
                assert(w.subrange(w.len() - 4, w.len() as int)[3] == w[w.len() - 1]);
            }
        }
        assert(u + Seq::<char>::empty() =~= u);
        lemma_replace_tail(b, Seq::empty(), dashed_usdt());
        assert(b + dashed_usdt() + Seq::<char>::empty() =~= v);
    } else if v == b + dash + u + dsw {
        assert(v[b.len() as int] == '-');
        lemma_without_dashes_concat(b, dash);
        lemma_without_dashes_concat(b + dash, u);
        lemma_without_dashes_concat(b + dash + u, dsw);
        let w = b + u + sw;
        assert(mapped_symbol(v) == w);
        assert(!is_listed(w)) by {
            if is_listed(w) {
                let j: int = choose|j: int|
                    0 <= j < PAIR_COUNT && (w == dashed(j) || w == dashed_swap(j) || w == joined(j)
                        || w == joined_swap(j));
                lemma_plain_not_dashed(w, j);
                if w == joined_swap(j) {
                    let n: int = w.len() - 4;
                    assert(joined(j) =~= joined_swap(j).subrange(0, n));
                    assert(b + u =~= w.subrange(0, n));
                    lemma_joined_usdt(b, j);
                    assert(dashed_swap(j) =~= v);
                } else {
                    lemma_pair_well_formed(j);
                    assert(w[w.len() - 1] == 'P');
                    assert(joined(j)[joined(j).len() - 1] == pair_quote(j)[pair_quote(j).len()
                        - 1]);
                }
            }
        }
        lemma_unlisted_by_rule(w);
        assert(!w.contains('-'));
        assert(w.subrange(w.len() - 4, w.len() as int) =~= sw);
        lemma_replace_tail(b, sw, dashed_usdt_swap());
        assert(b + (u + sw) =~= w);
        assert(b + dashed_usdt_swap() + sw =~= v);
    } else if v == b + u {
        assert(!v.contains('-'));
        assert(v[v.len() - 1] == 'T');
        assert(!ends_with_swap(v)) by {
            if ends_with_swap(v) {
                assert(v.subrange(v.len() - 4, v.len() as int)[3] == v[v.len() - 1]);
            }
        }
        assert(u + Seq::<char>::empty() =~= u);
        lemma_replace_tail(b, Seq::empty(), dashed_usdt());
        let w = b + dash + u;
        assert(b + dashed_usdt() + Seq::<char>::empty() =~= w);
        assert(mapped_symbol(v) == w);
        assert(w[b.len() as int] == '-');
        assert(!is_listed(w)) by {
            if is_listed(w) {
                let j: int = choose|j: int|
                    0 <= j < PAIR_COUNT && (w == dashed(j) || w == dashed_swap(j) || w == joined(j)
                        || w == joined_swap(j));
                lemma_dashed_not_joined(w, j);
                lemma_pair_well_formed(j);
                if w == dashed(j) {
                    lemma_dash_split(b, u, pair_base(j), pair_quote(j));
                    assert(joined(j) == v);
                } else {
                    assert(dashed_swap(j) =~= pair_base(j) + dash + (pair_quote(j) + dsw));
                    lemma_dash_split(b, u, pair_base(j), pair_quote(j) + dsw);
                }
            }
        }
        lemma_unlisted_by_rule(w);
        lemma_without_dashes_concat(b, dash);
        lemma_without_dashes_concat(b + dash, u);
    } else {
        assert(v == b + u + sw);
        assert(!v.contains('-'));
        assert(v.subrange(v.len() - 4, v.len() as int) =~= sw);
        assert(b + (u + sw) =~= v);
        lemma_replace_tail(b, sw, dashed_usdt_swap());
        let w = b + dash + u + dsw;
        assert(b + dashed_usdt_swap() + sw =~= w);
        assert(mapped_symbol(v) == w);
        assert(w[b.len() as int] == '-');
        assert(!is_listed(w)) by {
            if is_listed(w) {
                let j: int = choose|j: int|
                    0 <= j < PAIR_COUNT && (w == dashed(j) || w == dashed_swap(j) || w == joined(j)
                        || w == joined_swap(j));
                lemma_dashed_not_joined(w, j);
                lemma_pair_well_formed(j);
                assert(w =~= b + dash + (u + dsw));
                if w == dashed(j) {
                    lemma_dash_split(b, u + dsw, pair_base(j), pair_quote(j));
                } else {
                    assert(dashed_swap(j) =~= pair_base(j) + dash + (pair_quote(j) + dsw));
                    lemma_dash_split(b, u + dsw, pair_base(j), pair_quote(j) + dsw);
                    assert(u =~= (u + dsw).subrange(0, 4));
                    assert(pair_quote(j) =~= (pair_quote(j) + dsw).subrange(0, pair_quote(j).len() as int));
                    assert(joined_swap(j) =~= v);
                }
            }
        }
        lemma_unlisted_by_rule(w);
        lemma_without_dashes_concat(b, dash);
        lemma_without_dashes_concat(b + dash, u);
        lemma_without_dashes_concat(b + dash + u, dsw);
    }
}

} // verus!
