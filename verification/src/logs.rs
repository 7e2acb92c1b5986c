//! Natural logarithms in fixed point.

use vstd::prelude::*;

verus! {

/// Natural logarithms of 1 to 127, in units of 2^-28, rounded. Entry 0 is unused.
pub const LN: [u32; 128] = [
    0, 0, 186065279, 294906491, 372130559, 432030200, 480971770, 522351278,
    558195838, 589812981, 618095479, 643680111, 667037050, 688523350, 708416558, 726936691,
    744261118, 760534916, 775878261, 790391820, 804160759, 817257769, 829745390, 841677820,
    853102329, 864060400, 874588630, 884719472, 894481837, 903901592, 913001970, 921803921,
    930326397, 938586602, 946600195, 954381478, 961943540, 969298396, 976457100, 983429841,
    990226038, 996854411, 1003323048, 1009639468, 1015810670, 1021843181, 1027743099, 1033516127,
    1039167609, 1044702556, 1050125679, 1055441407, 1060653909, 1065767120, 1070784752, 1075710311,
    1080547117, 1085298311, 1089966871, 1094555623, 1099067250, 1103504300, 1107869201, 1112164260,
    1116391677, 1120553550, 1124651881, 1128688581, 1132665475, 1136584310, 1140446758, 1144254417,
    1148008820, 1151711437, 1155363676, 1158966891, 1162522379, 1166031389, 1169495121, 1172914727,
    1176291318, 1179625963, 1182919691, 1186173494, 1189388328, 1192565116, 1195704748, 1198808082,
    1201875949, 1204909151, 1207908461, 1210874629, 1213808379, 1216710412, 1219581407, 1222422020,
    1225232888, 1228014628, 1230767836, 1233493092, 1236190959, 1238861980, 1241506686, 1244125589,
    1246719189, 1249287969, 1251832400, 1254352939, 1256850031, 1259324108, 1261775590, 1264204887,
    1266612396, 1268998505, 1271363590, 1273708020, 1276032151, 1278336332, 1280620903, 1282886194,
    1285132529, 1287360222, 1289569580, 1291760902, 1293934480, 1296090600, 1298229539, 1300351570,
];

/// The natural logarithm of a number below 128, in units of 2^-28.
#[verifier::opaque]
pub open spec fn ln_units(n: int) -> int {
    LN[n] as int
}

pub fn ln_of(n: usize) -> (v: u32)
    requires
        n < 128,
    ensures
        v == ln_units(n as int),
{
    proof {
        reveal(ln_units);
    }
    LN[n]
}

} // verus!
