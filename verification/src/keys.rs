//! The table of Zobrist keys, and the proof that it holds the key sequence.

use crate::zobrist::{key_at, xorshift, NUM_KEYS, SEED};
use vstd::prelude::*;

verus! {

pub const KEYS: [u64; 793] = [
    0x66FE4663613BC544, 0x334F6D50563C63CE, 0x85E946BAA4E32889, 0x706176E15541EC98,
    0x13E3D2F768814941, 0xE25F5BCCF80C3B93, 0x1BBD4245ABC8A724, 0x8B37907638867F6A,
    0x325B50C3E8ADE914, 0x0FE859C516A877C6, 0xB1152A26153216A9, 0x82DBE5C0A6C0F8C4,
    0x926A27AD18C1C835, 0xA04A2CB5864EE6E5, 0xAE9E610A66F76268, 0xC56414D10EF716AC,
    0xD5BA2E9054F8D381, 0x79C6546C94D9E266, 0x10D9DEF257800822, 0x1D053F78D34D40B2,
    0x5929420034CBB6B3, 0x5DAB7723AAA5ED1E, 0x0BCE6E23BBA02144, 0xDD4C2C8A70FBB006,
    0xE8CC81BD213A86E6, 0xDFA859DA51D38A6B, 0xBEB5F4784FA1D7BF, 0x10D4530E5A1C9BD0,
    0x7D7A5695FF3A56E7, 0x468719BAA7997B8A, 0xFF5D1A20CC03EBFD, 0x3FEED19A96CAB36A,
    0x949CB6083E3EBC8C, 0x1701E654B39662F5, 0xE61080A895D75370, 0xC5852FBA18EA21D6,
    0x704EACAC92434015, 0xB5A2EFF3F41F63D5, 0xB929D8F8E8F10852, 0xD3E8A0BC79ECBEC2,
    0x65CD0A0FC396973F, 0x12363D3EC0F195D1, 0x59EFA1B4F6DB22BA, 0xB6A01643B9577A7F,
    0xD657B8C2D222AB4B, 0xDB8A69C933FF5CDD, 0xC5CD4281DF9C3524, 0xEA4738953516C44E,
    0x67583183F6C83A46, 0x5E221703B307FBB2, 0xD7B8F0733B6358C5, 0x3C47278770B30F34,
    0x9502C0EC7B23242A, 0x2EAB6E255E5D28E2, 0x7723570AF2D1EA33, 0x077D51532446A527,
    0x9B6D15B7445981AD, 0xAC2453CFFF58F9EE, 0x08E844374E9FF39D, 0xE11083A46FF98B3A,
    0x7C091600057BF6AC, 0x5770CE3071DB2A41, 0x153DA8FF5A102C55, 0xAF164D7157BFB94D,
    0x48E64CE7C729357F, 0x02AD89E155EFD8D5, 0xB2C2AF4B33E09224, 0xDBAF016BFBE75A00,
    0xCE2307E717EE14B4, 0x1A239B742BE8659D, 0x61F5EE1FD1397216, 0x2DAF651A04614572,
    0xBB343CF036669B78, 0xE04257CF8C5F884E, 0x09FF3A513C10E4DE, 0x00B97A7CE3E43297,
    0x3831C1371B19BF32, 0x1836055C853E00CC, 0x848DC98B2C37CFCD, 0x976C499E2841F312,
    0x797D4790D2E7F474, 0x56C32B14F909A69C, 0xDD7DBBDE83E392D1, 0xA4390FC03732C1B4,
    0x92A2CC80B1B44937, 0xB4A216C44C298C65, 0x236994C33324663D, 0x3357F07AF3FE01B1,
    0xF2706C065A4BB1F2, 0x720C225B860F1A11, 0x4FD57F30114DA065, 0xD63437F492C18265,
    0x31A4C7778B8A3821, 0xECCD2044C9350411, 0x2C7568D839D64A59, 0xE616D9C59466508D,
    0x526BAE09F2131F6C, 0xAD33C8D1C2796252, 0x937E04A15BC34416, 0xA440F9C88F1B071E,
    0x8DF86BB5D5073690, 0x18E1FFD220489CFD, 0x3E0C87CDA0B89284, 0x1CD2D6A682CFC2A1,
    0x536F022F2EA6D564, 0xD624B5F0807E41CE, 0x6172FD1AAB4D0ECD, 0x28EBD220E3A18790,
    0x719A64223BCB209F, 0x035FCDD30B5B711E, 0x34D24C85954A407C, 0x8A19722E13074BFC,
    0xB748C636135A3A6B, 0x9E7AC52B070174DF, 0xF2536513FC25A1F6, 0x6E8835B4C8E15735,
    0xCB0DB6764275F8DB, 0x8CB1E1EC074045EA, 0x42617603F820FFE1, 0xFA539B3324AF665E,
    0xA0949FB15BD06F12, 0xD041F09E56064B4C, 0xD3DADA880BE514DA, 0x111C4C1A10CAA873,
    0xF990B681C08941E3, 0xF1859D455E244BA0, 0x9B70C5110290EB37, 0x03C6731A578BE721,
    0x2B0F89EACC6718AF, 0xB00B739ED9901D5E, 0x6C3F5EE2D647AAE4, 0x02A82C984E3F1CB1,
    0xA11F76F1CF626EC8, 0xD459BEFF89941815, 0x64E46255BA499565, 0xF812EB5F4FEAFF0F,
    0x457D58F146490931, 0x820F999BF967F763, 0x4F2A4C73691E804D, 0xD48D59D8047F0E0D,
    0x1483A10EECD7D351, 0x10B9454C2FFE88B7, 0xFA05D319E9D9B866, 0x071B152F3E44D296,
    0x7B7159BE16383EB3, 0x7C79D1D4E7D1820E, 0xD1A6DFCA4F2B628A, 0x584DD37AD0A2D6CF,
    0x7B1E62A3D62BC0A2, 0xAE884A919C25FFA3, 0x3D5BDECB70AE3C9C, 0x2D71A1188599C7E5,
    0x30F1C0F7B04BAD2A, 0xD9D89859598530F0, 0xE3584CC721460691, 0xB869551023EF0EDC,
    0x1C70F4AED632E7C1, 0xCA88538AFF43524E, 0x3D8C5E3B5EF4876A, 0xF03BA885EC4DF4E4,
    0x026DD7CFE66ED60D, 0xBF4D72F8691428E1, 0xA77AE885683018F0, 0xD98E4AF8E47A44C1,
    0xF94673AC03ABA008, 0x1F201EB52FD5F548, 0xB0BD4A85171A0CA2, 0x7EB307F03A55503B,
    0x2B06505ECDC4945B, 0xC524B51744976BB3, 0xF15C145B31FAC9A4, 0xCA319CBF0A71D537,
    0x9A409467E40C9B5D, 0x69B2872451DFF52B, 0x7B2F814D50266001, 0xC42E3923161C0C81,
    0x9DA2E2113F1334D8, 0xC8927A0EF65924B1, 0x81C4B1596C1A9AB8, 0x900755858829018D,
    0x6CD1D9D888D490CE, 0x6DE220A20A26CA6F, 0x33EFB0BEE6BBFC3B, 0xFD1108AC8008E503,
    0xFE851EBF6F83D409, 0xF0BB40F868EAF1E1, 0x9368FC08043F7C42, 0xD31DC7B65014523A,
    0xDC63BC60DBDBB41E, 0x5A134C5013EEC4F6, 0xCA9D5D7C5918E4FF, 0x061745EBEEE00AF6,
    0x37F86C84EEA7B763, 0x7B79504439E140CD, 0x387EF760C3C3110C, 0x72D2EB8438FD542E,
    0x7F7862FA6F506506, 0xB15DE720CBAF444C, 0x16F19F689AE889C4, 0x4F0D74A2B369A9D7,
    0xC14E2235C7D7EF44, 0x12F7C36C877F119A, 0x2507A029F1F4C939, 0xE6F6172FDBD44EEB,
    0xB3403AD781C13CB6, 0x4B860D4CDF85534F, 0x1819D39FD9556A29, 0xDBE6C114CB826ABD,
    0xA26B4F648D886128, 0x68C084345D7A3BEA, 0x7FBEDBE2C609751D, 0xA9C058D2AE1580B7,
    0xD18BC574F2D36676, 0x8B4697DBF9559D3A, 0x7F4FC3EED9673880, 0x7FDB08E417E9D6F1,
    0x14E03BD62D55991C, 0x84BD05158D16F52E, 0x33EBF1F69B9C5344, 0x5CCEBF6E6E133AE2,
    0xE2A796F29973E417, 0x7CF78E229004E61F, 0xFB1D2A2758F88813, 0xBB91006802EF1DC3,
    0xEAC02D1E2CE5D338, 0xB01A080C3E93D69E, 0x817A4950D5AE96B3, 0x2F4569AEC3CA075E,
    0x221C08FB258784D0, 0x7763EFFC3D05BFD9, 0xAB91375AF62762E6, 0xB6FAD1D38D0955A3,
    0xAF7DA4D6DD624FC8, 0x78D872E0931C7957, 0xA6ED5C5FF2C4F465, 0xD3FAAA62EB0AC4CD,
    0xB260F30530FC4204, 0x06394E2BFACDBB80, 0xBD829B5D28C8C0F7, 0x37459D57A1DB8CB6,
    0xEA9AA465A5B3D62F, 0xC68ECD63CC4EDA43, 0xFC1B77D2AD46B737, 0x53B9FE90A0651799,
    0x1621486F0D7F1BF6, 0xDE742F28DF5FD841, 0x767352940D7D57B1, 0x3D2231151278615E,
    0x5F0FC6A2A657061C, 0xEC0D097FC839AF10, 0x2688ADD83CBC184E, 0xA9638C8E4736B3FE,
    0x988320378259E119, 0x4AC455D02E30349B, 0x9892A55220961232, 0xECA456A98639F296,
    0x6FF94E95ACFDE4F3, 0x1F5FA47A83B743FA, 0x41CFB3DB54E593FD, 0xD731625B6663079A,
    0x0F98ABB0E6B76715, 0xCECAE68A1F776C9B, 0xB763E42DB205C482, 0xF7E23FC88F96AF8B,
    0x81B745C02EFB0014, 0xD4E3BE57964C7314, 0x9E61563A79FAAEF2, 0x1FA119CE6822A72F,
    0xF626B41E3BFCC9A1, 0x53EAFA9D91697872, 0x78E38416331FF602, 0x0993CC793498096E,
    0xD6831082A426A2FC, 0x70E69BBDDDEBD0B9, 0xA6574F26B4030958, 0xB207CF912A16594A,
    0x496E8CFC880D6778, 0x664D429199C7A3B6, 0x5117319E3D880171, 0xC9CC7879B9BB6D33,
    0xD5EE5ABA27E73729, 0xC670F57A6A8E1307, 0xD7D9F825A27D2EE1, 0x04E951AE4A564CFC,
    0x6D2BB449F4045F65, 0x842C15F2B0212E9B, 0xC87D96C22CD5AA06, 0x4BACC9B2A90240D2,
    0x8068201FA57C30D3, 0x835185587BC49C72, 0x4CF42C003A0E49CA, 0x4EC822B5BF6367D9,
    0x1AED680D8E937756, 0xB65BBF1ED7C94438, 0xEA63744D81D0D8B0, 0xA61DFA19DFF15501,
    0xE1A40913956DD7EB, 0x8ED5D0D67EC79684, 0x36C7A32EE05D38A9, 0xB49120561CF68898,
    0x39A46CF3DB6C4389, 0x7230BCC7DD27594E, 0x4AB8F728F89A847C, 0xF322ED6183AD2E74,
    0x2E8FDCF0DC7F6928, 0x1D587A8074CCDDFA, 0xDBCFDDAB292F7AC1, 0xBBC5FA08B313B474,
    0xCFE9C59E0C2E0E1C, 0x969344FF50765500, 0x90A8446B8AB7F9AA, 0x67BB618476DBBCD9,
    0xFA9F860584821DE0, 0x1BBA51982F0661DB, 0xDC8A6326E54B7BD8, 0x542E48B8A37A1B2F,
    0xC0DFB1D1C66DC4D9, 0xB294CE18542B0910, 0xFD2975D239671B02, 0xFB025BFD8CDB55B4,
    0x927946F0379F0E1F, 0xA6D5AD637E7657C3, 0x710EEEE6B8BF2BAC, 0x968EE360C2873EFB,
    0x37FBB4E3999EEE46, 0x515AC1E2E0EA821A, 0xA8FCCF556CF4919E, 0xAD689C7BD740DF3D,
    0xED27FF2288B831C3, 0x4035E253475D5160, 0x16DC4CFAFB2FB3C2, 0xB50DF3228B075C25,
    0xE972B98313F8FBDD, 0x03A9B77F4E4E5D6A, 0x913B03DA5E48DB50, 0x61A40FD25E649EE6,
    0x10B318D0AC952E5B, 0xCDFF45C168C2F2C7, 0xE91CEFE6C93326E2, 0x9953AFC45CEAB82F,
    0x095101E0B4C6869F, 0xB392E4EC0C794C52, 0x1982BCD8372CEA4A, 0x5C162B2B130D611E,
    0xC7F1FB79D2E8FC5C, 0x0022F555F1B1BAA4, 0xE9DF5924E0CAF0D1, 0x6791B9ED274D7170,
    0xDA7045DDEF55B792, 0x0CE001EE47EEB87D, 0xE9C71D00035ADA4D, 0xACD0CE1737D15CB9,
    0xAD01804126FEF040, 0xF39C3DD9FE471DA0, 0xECE53384C8FEFB9B, 0x499CC28B20FA80AC,
    0xABDC8DC4E554DEAD, 0x88899DB45ADC7C50, 0x6BCD7D3BABACD0A8, 0x7D5F87EBEBC8A309,
    0xF2760BCA7A48D00F, 0x877D97192257A26F, 0x299F6D599C6076EB, 0xA96C4558E0146CC6,
    0x8E556547B269B59F, 0xF2E14B8B53BBE134, 0xD958AE3B602E5BF6, 0x367351B6A3843AC1,
    0x41665FE6ED7DA2F4, 0xE514206F02F364B1, 0x86B9EAC210C98E38, 0x6D834513B1049324,
    0xE781FB18E322D302, 0x9C37A2D26C781624, 0x01BA9C400A71EF08, 0xA2FEAFCBB653CED6,
    0xDA8E4E9FF5801CCB, 0x05E458A535914E32, 0xB03B7B347233A02E, 0x43D28AECFBE60CEE,
    0x05DC3FA56CE13B77, 0x0516B12CB09AC4C1, 0x50766ED455C2E108, 0xE7DE1E449C6426CA,
    0x65F9B1CBB0821C07, 0xDFCFCF9DB71AF9FF, 0x25682A66B26D53CC, 0x4BC2299ABAF2FA6B,
    0x369E44D0A6CAE55F, 0x4EAB8B82673FC755, 0xDE72D93ECFDCCD9B, 0xD1D61342394372C0,
    0x421C2FA80BFF4425, 0x3F7265F06B6713ED, 0x93B0905CBD1C868A, 0x6359D6DC69985D07,
    0xE78026A12406CC7D, 0xB6D9D6C143387EA5, 0x77AFFDB10E450718, 0x568B5437CBD74B16,
    0x505AC7F678F0E000, 0x8946288BB7B901C0, 0xAD4F2D9C692803C3, 0xFB9D6EFD9D8AC304,
    0xE702E03573659782, 0x37F8A2E88A4CFC2D, 0xD26E5703CAC8CE95, 0x7CB3FF7ED22C5A48,
    0x39B8C2DE0E2F90FC, 0xAB9B528D2A7270DD, 0x0410A76EE459037C, 0x12F89E6FD34AEE7A,
    0x1CAA09FFC9D4A526, 0xEB6774B1DC1285EC, 0x5EA17AC15C785BE7, 0x36C334B9AE8AB290,
    0x0220FB382EC303F5, 0xFF466D5C3F44D8B2, 0x504BAB55B61C3D83, 0x9A31643317BF0538,
    0x6648952514923532, 0xABB596F807201DD8, 0x9F383A146B542BE3, 0x1D6A65F8251C1B74,
    0xC644E9E5EDBA7E42, 0x123AAA97B34ADA3E, 0x5F68A7FD15C9000A, 0x1D9D50091CB7D08A,
    0x2002F9AF623DDDAB, 0x884F6BB4519BACD0, 0x417BC6D7755BAF89, 0xED8B9B7B4D87DA96,
    0xE985785F40FEB0A3, 0x5CC3A2EE1DC30502, 0x93E6FEA7D6898388, 0x8C567614EE2B728F,
    0xC61D84F2EC2E67AA, 0xCBE543F0ED5091E5, 0xB290FDC3999EE986, 0x13A997A34F8D75D5,
    0xAA43CC453009BA7E, 0x2B4DE201625CF68A, 0x3D8F073F32BAADE7, 0xBD875F3A3530417C,
    0xE592D364F899FEFE, 0xDF5FE17E4DCEB283, 0xB21AE1C5CAE5EF26, 0xD7AE97F61F1F2D78,
    0xEC2156374B014D22, 0x2739E8E942104738, 0x0844B1EF4F0EA9B6, 0xCA38A4A6B5C61965,
    0x8AE5BEF492296C17, 0x8890E3416ACADB0F, 0xEAD93C14DB3A6D79, 0xECBBF34DBE7E67E3,
    0x53E10CC571BF03EC, 0xD1F3B875793706EB, 0x7D4A90CE5A95B226, 0xD55A573A748CD0C2,
    0x59B3110BCA8FB9E3, 0xA2F05F1BF568BE50, 0xA7AA193A793FFB2C, 0x7C27361C22E2CFDA,
    0x6D988CFB8265BCC5, 0x9A634463966EE6FC, 0x228CC48B1E460431, 0x83732EF6118FA479,
    0x895C628B60288571, 0x2C21CC5C3C11A83B, 0x2B1275407E52E5AB, 0x798F633BA3E24AA0,
    0x1A110DAF29092635, 0x796D82F723A61939, 0xC83CCECE91D63B4B, 0xFCDDAAE9F5E825FD,
    0x63EB24160D592AF6, 0x6B8B92D99811E523, 0x18D32761CFAEEE29, 0xBD951437092519B5,
    0xBADEC876B0CB9EC6, 0x1FB18779EC63787B, 0x2000D755E8FCC04B, 0x47A276B672024B0B,
    0xAA69FFAC0DAFED5D, 0x197CC12D486A45C7, 0x35BB5B5641CB008C, 0x3EFFCF7B9483358D,
    0xFFBED73DC49AF0A6, 0x9FF052079E352CC7, 0x159EB3379766975E, 0xA0CE575468E64DF0,
    0x4D08F3C9CACCFD6B, 0x01DDC293C9695E51, 0xF16F9A05EE3C38AD, 0xF130A27A7AC3CB9C,
    0xC1459D9611A12B0B, 0x1028504EE793CB9D, 0x855E001EB149AB4A, 0x9EE0BBCABE10AA9C,
    0x372BABFBE387ACC9, 0xBE987E416392B1D0, 0x551C551092A5E0B3, 0xA9947617698AE7B2,
    0x4B38C43CC4EC5EFD, 0x172839433FAD9900, 0xAC379D22E5F08232, 0x93137EA49331AFB6,
    0x3B08240EE158E169, 0xE85D86CBE3592AEB, 0xBE9EFC450374427E, 0x80F3C8C836D9F57A,
    0xCF0747439E465810, 0xF2646D3FE2AED0A0, 0x53ADCFDFA6C9A501, 0xC563A9EA335B560B,
    0x1582E40C5FE70267, 0x9BCFD4863592B5A3, 0x39BDBBD13BF09808, 0xA8F6FED680D07B38,
    0x9AE05BC13D3415CE, 0x0985AD7AEC38CE65, 0xF76AB923036D86B9, 0x28F619478935D3F4,
    0x416AB7EA7B8BC553, 0xB96CBD25F915E619, 0x0A9304B99C776B95, 0x146200969FE3C002,
    0x31405694BC284702, 0xF2C2CBD0B9B9970C, 0xF05325C30A0AA722, 0xB1D426AD2F8B3AEC,
    0x35DE60D4DF751799, 0x1DAF60367E913BF6, 0x093DDE03D95E2401, 0x0F5CC5A93DF7B809,
    0xF561FB150F117539, 0x7312C3A8BCD33993, 0x1C04673788169B20, 0x37F13091CDE87E16,
    0x8FBDF8634D7AEB6A, 0xD50FE280804F843C, 0xB3D5893F4A419434, 0x0B98A8DAA20E9A1C,
    0xE87A743D47FF8028, 0xE9464251D8C57528, 0xE239A8A28F08B5C2, 0x93E19FB636D19429,
    0x4EEACF66E6DE1D41, 0x281CA1E3FD4AD13B, 0x82B4FBB0E6916A59, 0xD8A17E37F3D7FECD,
    0x6812636112F64270, 0x5F4DF7A7C0E532F4, 0x1B325D499B54C591, 0xE1C4D33D1555285A,
    0x15BD0909362AD48A, 0x9AD2FF563324E3A3, 0x5633DD5C8F4622A4, 0xD5993B242C4687E1,
    0x78BB0F56001FD2AE, 0xC0F5CFB65CA8868B, 0x7DA717E9206D1546, 0x91621003F6185EEC,
    0x86FE5261D69C5551, 0x54ED7D7F0BF819BB, 0xC8C40885C64EE748, 0x7B1E1C09D39EA886,
    0x8983FD301A2D7457, 0x9CDB0A14E930DB7F, 0xB45B8B6B9DA98509, 0xEEE2B58A78D4B443,
    0x03E8C26514566DEB, 0x4BCF249FB1B8DBF0, 0x78199C2B571D5647, 0xD541177956781D2B,
    0x35DB1320B6D4C7D1, 0xA0F3CF14AE4EBA1E, 0x2872FF96022B60EA, 0x0836AE7851BC4CAB,
    0x724CD835BA7D7EF2, 0x1FD138B41096788F, 0x531111A2BD4497BE, 0x68CB7B5E59CE3111,
    0xE5A150A0C2B5C933, 0x8AE50CAE8BA68E61, 0x53E5E1DD18A47B3D, 0x1299F794BDFA5C8B,
    0x41E4F5E47463EAF2, 0x49DB79C17A61D1A7, 0x06EE258B6D5D9BC4, 0x2EBAC9823C7F51F3,
    0x414600CAAACDB390, 0x562D9E35A368CCF7, 0x1C38EB0B8ADFC0AE, 0x53928D3BFB7194AF,
    0x31535D5E1AFBBC46, 0x8437B06E5AD59ABE, 0x6D5B0F603C475E0B, 0xC15C6AAB62C73277,
    0x656DD3FFE026C1D3, 0xC9E5977DFF4C9890, 0x0276B5C90FC425A1, 0xC355DBD42332E5AA,
    0x7AC537FC4EBAAAE1, 0x4B2C50F5C23947F4, 0xDA7793471FE4487B, 0xB4FA8DD71D90FE2B,
    0x39F97E1BA27F3517, 0xEA97A6E8312E6EBD, 0x756EFB8C1D403D20, 0x26E3E377B865F55A,
    0x469FEFD5A0A32830, 0x98FF1D2A82EE6260, 0x8877B993ED7726A4, 0xE0D1A8D4B062E1E9,
    0x852A13ABA1537E6A, 0x744C4348C92F0216, 0xDC6EF6A7C01B1992, 0xF7CCAE67FC2D0B21,
    0xC04762A6EB1DB977, 0x1D3E35ACA9013FC5, 0xB5A798054E106CFA, 0xB963E5B4A84E32A3,
    0x70E6F3D0D8CA6606, 0x0DF1DF5D61B6B34A, 0xB96C86EDF9E84CAC, 0x9EA4F8993FF73735,
    0x60069D9E7E95B41B, 0xC3029BE5A2E0F9B3, 0x36934EBCA7AD3480, 0xF80175830EED4EE9,
    0x3BF0428A06160E34, 0xB35EECF2080F2F28, 0x374D38CBFCDDFB76, 0x4EC929B659345D00,
    0x5183FB37184575BA, 0x8AA741306A3DD1D1, 0xFF9A31A0C3C3FE32, 0x53CB6F7067E1B54E,
    0x6CCFBA9E82A2E5A4, 0x3E95C54BD974496F, 0x0903F2EBAE831A3D, 0x03DB4E8BDCCD3349,
    0x282E9DDAE88F5B6F, 0x2CF7C08069D77E19, 0xD10DE4111E5276A5, 0xDDFD141B5037DB08,
    0x7A43A2E17D7C76BE, 0x6AAB6ECDADEAE1D3, 0x7AF01EA0519320D0, 0xC0A07F7F74C03291,
    0xD358762AD11F36B4, 0xF0845D1D6E1425D9, 0x05AD15CAE2DE5BD2, 0x645E76ECAC3D53E5,
    0x628D443730497002, 0xA16B719126B1A262, 0x011CDE5DAF9419A6, 0x1112208B42D39815,
    0xC9286925A7789A65, 0x4D6686C9857E5211, 0x0E91CE4E96480AF5, 0x6E4B9CCF977887A0,
    0x881047FBFBDD9EAF, 0x4C0C77C1943C6E52, 0x98E8864711D9C20E, 0xC0598722B5DF320A,
    0xA5286848FCE54EEE, 0xC306CE1E0274FFF3, 0x1268FD2F29298ACC, 0x09A29ABBD9F2EAD9,
    0x4ECD1507BD38994C, 0x9F7EE7FF99B13B7E, 0x6EC64DA6A0B34688, 0x5F3B2F66ADF88205,
    0x90FA48AAAA415241, 0x5FEE49CB844360A5, 0xB998483FB1CF6F24, 0xB30A205D2167B8FA,
    0xF81DECD127C2090B, 0xCA7EAFE46B9CAFD9, 0x521885E4501740C6, 0xCDD3AD064AF19FC7,
    0xBC221166138B6D38, 0x62906F113B1435E2, 0x366A194510C12509, 0x09FF223A040EC503,
    0xC89E44515B85F849, 0x8FEB097424B7C1F9, 0xE2EA349AF945F03A, 0x97FBDEFD4978355A,
    0x9387E9A44C2CD3B0, 0x63AD2D0D59D86617, 0xF9F4EC5B5F86B31B, 0x95FEC548EF8C18BD,
    0xA3DD4B8D01DA8FCC, 0x6E7BCB67AF2549D3, 0x36C510D82F131780, 0xC7D7DBE19A26D1AF,
    0x423AAA52250B17CC, 0x09034DD444BB72E3, 0x0DEBEFAC153EDCC6, 0xD35DE3A778C550FF,
    0xD2BA0458A643059E, 0x7676BC4BAF572415, 0xCCD824B657782F1D, 0x2ED5B3F89038B803,
    0x70E304D12B50A9B3, 0xB7A943CC405A0420, 0x4A4E77EFFE8FB828, 0x5BE6041D2F29AD58,
    0x4F24BFD4BAB3A802, 0xF0C8008AD5888FD2, 0x20278F7BE7602A4D, 0x148AF9AB7F5FD959,
    0x99F0E394242A10AB, 0x4337EA3958670E4A, 0xFE63850DF77112D6, 0xF0F79A9718678573,
    0x65738D58326A76B9, 0x60F7968B0E6C2C14, 0xE652B75AE461714C, 0x81DA57B9A68060AE,
    0xB9E5CA2E6E1E8BEF, 0x8F658FD93E6DAD38, 0x146AD0FED2193862, 0x8FB8FD562BDB5292,
    0xA9882A491A6400B7, 0xBBB7A99B9BAA0576, 0xE8AFDE3E9F4ACCFC, 0xA8D60F7DA592E665,
    0xF89B05E1937EFAE9, 0x6AD5D8966A039D5C, 0xE79FF0CB2F574D66, 0x29A292E7718E7A7C,
    0x7B57A757E0AC7988, 0xCD4BF7706DB4437B, 0xD0A46112426A953D, 0x162478D4F042AF57,
    0xAE2EA2D723711FC9, 0x26E84B262DE52FB6, 0x00DCED802DD1C869, 0xFF82F000C38751B9,
    0x7B807E66EB57115A, 0x00301897429EA9F8, 0x696E8838CBD8EAAB, 0x3DDBE020725C91BE,
    0xE2323EE03991871D, 0x6FE6BF602BC6C353, 0xE7A32BFB3661FA15, 0x68833BCF5E731CA1,
    0x44A75A98DA2CF2D8, 0xFC1654A0C4851D3D, 0xA7BF4771F762F847, 0xF912FD1B0BD4CC77,
    0x594E5DA46120982F, 0xDB99C1A1177F32DF, 0x937A61055A329B7A, 0x214B61494ED760CC,
    0x55FD87147F917D0D, 0x893A0FD6E5FEBCB7, 0x6CCE92D6F8108C0E, 0x7577E5CB9D6E6E96,
    0x9E483371338BD7CB, 0x2B42CAEAECA852A4, 0x22599A334F332B01, 0x8958CC3DDA29AD17,
    0x02D2F53EA94E5B8D, 0xC86353A0440F847A, 0x487C9A447C0DC5F2, 0x215EE39B8AC8E2F9,
    0x6F19EE92C942ED7C, 0x13C5E35C8E88B7A6, 0xF22028F19DDE8F49, 0x3829D6235881C017,
    0xCE7A6ACD4AEC2657, 0x8A0A5B62F80C8BDB, 0x50339721A7BD040C, 0x3BB15AF4513AFD04,
    0x0E2B5E7C3B7B49FE, 0x446DF961753A00ED, 0x526426F26615EFAC, 0xEADE6A4BE4B1AF73,
    0x5638ED0A8B2770ED, 0x5523FCF7F368A54C, 0xDBD7DC829C02A706, 0x203E9AFB8AE3A3C8,
    0xA2664ABF9C79968F, 0xDF6245A883312662, 0x60328E0003EE9CAE, 0xE7533CD67FF5AA17,
    0x4055568AD2242483,
];

/// The first `n` entries of the table are the first keys of the sequence.
spec fn agree(n: int) -> bool {
    forall|i: int| 0 <= i < n ==> KEYS@[i] == #[trigger] key_at(i as nat)
}

/// Nine numbers, each the step of the generator after the one before.
spec fn run(a: u64, b: u64, c: u64, d: u64, e: u64, f: u64, g: u64, h: u64, i: u64) -> bool {
    &&& xorshift(a) == b
    &&& xorshift(b) == c
    &&& xorshift(c) == d
    &&& xorshift(d) == e
    &&& xorshift(e) == f
    &&& xorshift(f) == g
    &&& xorshift(g) == h
    &&& xorshift(h) == i
}

/// The steps of the generator from each key of the table to the next.
proof fn runs()
    by (bit_vector)
    ensures
        xorshift(SEED) == 0x66FE4663613BC544,
        run(
            0x66FE4663613BC544, 0x334F6D50563C63CE, 0x85E946BAA4E32889,
            0x706176E15541EC98, 0x13E3D2F768814941, 0xE25F5BCCF80C3B93,
            0x1BBD4245ABC8A724, 0x8B37907638867F6A, 0x325B50C3E8ADE914,
        ),
        run(
            0x325B50C3E8ADE914, 0x0FE859C516A877C6, 0xB1152A26153216A9,
            0x82DBE5C0A6C0F8C4, 0x926A27AD18C1C835, 0xA04A2CB5864EE6E5,
            0xAE9E610A66F76268, 0xC56414D10EF716AC, 0xD5BA2E9054F8D381,
        ),
        run(
            0xD5BA2E9054F8D381, 0x79C6546C94D9E266, 0x10D9DEF257800822,
            0x1D053F78D34D40B2, 0x5929420034CBB6B3, 0x5DAB7723AAA5ED1E,
            0x0BCE6E23BBA02144, 0xDD4C2C8A70FBB006, 0xE8CC81BD213A86E6,
        ),
        run(
            0xE8CC81BD213A86E6, 0xDFA859DA51D38A6B, 0xBEB5F4784FA1D7BF,
            0x10D4530E5A1C9BD0, 0x7D7A5695FF3A56E7, 0x468719BAA7997B8A,
            0xFF5D1A20CC03EBFD, 0x3FEED19A96CAB36A, 0x949CB6083E3EBC8C,
        ),
        run(
            0x949CB6083E3EBC8C, 0x1701E654B39662F5, 0xE61080A895D75370,
            0xC5852FBA18EA21D6, 0x704EACAC92434015, 0xB5A2EFF3F41F63D5,
            0xB929D8F8E8F10852, 0xD3E8A0BC79ECBEC2, 0x65CD0A0FC396973F,
        ),
        run(
            0x65CD0A0FC396973F, 0x12363D3EC0F195D1, 0x59EFA1B4F6DB22BA,
            0xB6A01643B9577A7F, 0xD657B8C2D222AB4B, 0xDB8A69C933FF5CDD,
            0xC5CD4281DF9C3524, 0xEA4738953516C44E, 0x67583183F6C83A46,
        ),
        run(
            0x67583183F6C83A46, 0x5E221703B307FBB2, 0xD7B8F0733B6358C5,
            0x3C47278770B30F34, 0x9502C0EC7B23242A, 0x2EAB6E255E5D28E2,
            0x7723570AF2D1EA33, 0x077D51532446A527, 0x9B6D15B7445981AD,
        ),
        run(
            0x9B6D15B7445981AD, 0xAC2453CFFF58F9EE, 0x08E844374E9FF39D,
            0xE11083A46FF98B3A, 0x7C091600057BF6AC, 0x5770CE3071DB2A41,
            0x153DA8FF5A102C55, 0xAF164D7157BFB94D, 0x48E64CE7C729357F,
        ),
        run(
            0x48E64CE7C729357F, 0x02AD89E155EFD8D5, 0xB2C2AF4B33E09224,
            0xDBAF016BFBE75A00, 0xCE2307E717EE14B4, 0x1A239B742BE8659D,
            0x61F5EE1FD1397216, 0x2DAF651A04614572, 0xBB343CF036669B78,
        ),
        run(
            0xBB343CF036669B78, 0xE04257CF8C5F884E, 0x09FF3A513C10E4DE,
            0x00B97A7CE3E43297, 0x3831C1371B19BF32, 0x1836055C853E00CC,
            0x848DC98B2C37CFCD, 0x976C499E2841F312, 0x797D4790D2E7F474,
        ),
        run(
            0x797D4790D2E7F474, 0x56C32B14F909A69C, 0xDD7DBBDE83E392D1,
            0xA4390FC03732C1B4, 0x92A2CC80B1B44937, 0xB4A216C44C298C65,
            0x236994C33324663D, 0x3357F07AF3FE01B1, 0xF2706C065A4BB1F2,
        ),
        run(
            0xF2706C065A4BB1F2, 0x720C225B860F1A11, 0x4FD57F30114DA065,
            0xD63437F492C18265, 0x31A4C7778B8A3821, 0xECCD2044C9350411,
            0x2C7568D839D64A59, 0xE616D9C59466508D, 0x526BAE09F2131F6C,
        ),
        run(
            0x526BAE09F2131F6C, 0xAD33C8D1C2796252, 0x937E04A15BC34416,
            0xA440F9C88F1B071E, 0x8DF86BB5D5073690, 0x18E1FFD220489CFD,
            0x3E0C87CDA0B89284, 0x1CD2D6A682CFC2A1, 0x536F022F2EA6D564,
        ),
        run(
            0x536F022F2EA6D564, 0xD624B5F0807E41CE, 0x6172FD1AAB4D0ECD,
            0x28EBD220E3A18790, 0x719A64223BCB209F, 0x035FCDD30B5B711E,
            0x34D24C85954A407C, 0x8A19722E13074BFC, 0xB748C636135A3A6B,
        ),
        run(
            0xB748C636135A3A6B, 0x9E7AC52B070174DF, 0xF2536513FC25A1F6,
            0x6E8835B4C8E15735, 0xCB0DB6764275F8DB, 0x8CB1E1EC074045EA,
            0x42617603F820FFE1, 0xFA539B3324AF665E, 0xA0949FB15BD06F12,
        ),
        run(
            0xA0949FB15BD06F12, 0xD041F09E56064B4C, 0xD3DADA880BE514DA,
            0x111C4C1A10CAA873, 0xF990B681C08941E3, 0xF1859D455E244BA0,
            0x9B70C5110290EB37, 0x03C6731A578BE721, 0x2B0F89EACC6718AF,
        ),
        run(
            0x2B0F89EACC6718AF, 0xB00B739ED9901D5E, 0x6C3F5EE2D647AAE4,
            0x02A82C984E3F1CB1, 0xA11F76F1CF626EC8, 0xD459BEFF89941815,
            0x64E46255BA499565, 0xF812EB5F4FEAFF0F, 0x457D58F146490931,
        ),
        run(
            0x457D58F146490931, 0x820F999BF967F763, 0x4F2A4C73691E804D,
            0xD48D59D8047F0E0D, 0x1483A10EECD7D351, 0x10B9454C2FFE88B7,
            0xFA05D319E9D9B866, 0x071B152F3E44D296, 0x7B7159BE16383EB3,
        ),
        run(
            0x7B7159BE16383EB3, 0x7C79D1D4E7D1820E, 0xD1A6DFCA4F2B628A,
            0x584DD37AD0A2D6CF, 0x7B1E62A3D62BC0A2, 0xAE884A919C25FFA3,
            0x3D5BDECB70AE3C9C, 0x2D71A1188599C7E5, 0x30F1C0F7B04BAD2A,
        ),
        run(
            0x30F1C0F7B04BAD2A, 0xD9D89859598530F0, 0xE3584CC721460691,
            0xB869551023EF0EDC, 0x1C70F4AED632E7C1, 0xCA88538AFF43524E,
            0x3D8C5E3B5EF4876A, 0xF03BA885EC4DF4E4, 0x026DD7CFE66ED60D,
        ),
        run(
            0x026DD7CFE66ED60D, 0xBF4D72F8691428E1, 0xA77AE885683018F0,
            0xD98E4AF8E47A44C1, 0xF94673AC03ABA008, 0x1F201EB52FD5F548,
            0xB0BD4A85171A0CA2, 0x7EB307F03A55503B, 0x2B06505ECDC4945B,
        ),
        run(
            0x2B06505ECDC4945B, 0xC524B51744976BB3, 0xF15C145B31FAC9A4,
            0xCA319CBF0A71D537, 0x9A409467E40C9B5D, 0x69B2872451DFF52B,
            0x7B2F814D50266001, 0xC42E3923161C0C81, 0x9DA2E2113F1334D8,
        ),
        run(
            0x9DA2E2113F1334D8, 0xC8927A0EF65924B1, 0x81C4B1596C1A9AB8,
            0x900755858829018D, 0x6CD1D9D888D490CE, 0x6DE220A20A26CA6F,
            0x33EFB0BEE6BBFC3B, 0xFD1108AC8008E503, 0xFE851EBF6F83D409,
        ),
        run(
            0xFE851EBF6F83D409, 0xF0BB40F868EAF1E1, 0x9368FC08043F7C42,
            0xD31DC7B65014523A, 0xDC63BC60DBDBB41E, 0x5A134C5013EEC4F6,
            0xCA9D5D7C5918E4FF, 0x061745EBEEE00AF6, 0x37F86C84EEA7B763,
        ),
        run(
            0x37F86C84EEA7B763, 0x7B79504439E140CD, 0x387EF760C3C3110C,
            0x72D2EB8438FD542E, 0x7F7862FA6F506506, 0xB15DE720CBAF444C,
            0x16F19F689AE889C4, 0x4F0D74A2B369A9D7, 0xC14E2235C7D7EF44,
        ),
        run(
            0xC14E2235C7D7EF44, 0x12F7C36C877F119A, 0x2507A029F1F4C939,
            0xE6F6172FDBD44EEB, 0xB3403AD781C13CB6, 0x4B860D4CDF85534F,
            0x1819D39FD9556A29, 0xDBE6C114CB826ABD, 0xA26B4F648D886128,
        ),
        run(
            0xA26B4F648D886128, 0x68C084345D7A3BEA, 0x7FBEDBE2C609751D,
            0xA9C058D2AE1580B7, 0xD18BC574F2D36676, 0x8B4697DBF9559D3A,
            0x7F4FC3EED9673880, 0x7FDB08E417E9D6F1, 0x14E03BD62D55991C,
        ),
        run(
            0x14E03BD62D55991C, 0x84BD05158D16F52E, 0x33EBF1F69B9C5344,
            0x5CCEBF6E6E133AE2, 0xE2A796F29973E417, 0x7CF78E229004E61F,
            0xFB1D2A2758F88813, 0xBB91006802EF1DC3, 0xEAC02D1E2CE5D338,
        ),
        run(
            0xEAC02D1E2CE5D338, 0xB01A080C3E93D69E, 0x817A4950D5AE96B3,
            0x2F4569AEC3CA075E, 0x221C08FB258784D0, 0x7763EFFC3D05BFD9,
            0xAB91375AF62762E6, 0xB6FAD1D38D0955A3, 0xAF7DA4D6DD624FC8,
        ),
        run(
            0xAF7DA4D6DD624FC8, 0x78D872E0931C7957, 0xA6ED5C5FF2C4F465,
            0xD3FAAA62EB0AC4CD, 0xB260F30530FC4204, 0x06394E2BFACDBB80,
            0xBD829B5D28C8C0F7, 0x37459D57A1DB8CB6, 0xEA9AA465A5B3D62F,
        ),
        run(
            0xEA9AA465A5B3D62F, 0xC68ECD63CC4EDA43, 0xFC1B77D2AD46B737,
            0x53B9FE90A0651799, 0x1621486F0D7F1BF6, 0xDE742F28DF5FD841,
            0x767352940D7D57B1, 0x3D2231151278615E, 0x5F0FC6A2A657061C,
        ),
        run(
            0x5F0FC6A2A657061C, 0xEC0D097FC839AF10, 0x2688ADD83CBC184E,
            0xA9638C8E4736B3FE, 0x988320378259E119, 0x4AC455D02E30349B,
            0x9892A55220961232, 0xECA456A98639F296, 0x6FF94E95ACFDE4F3,
        ),
        run(
            0x6FF94E95ACFDE4F3, 0x1F5FA47A83B743FA, 0x41CFB3DB54E593FD,
            0xD731625B6663079A, 0x0F98ABB0E6B76715, 0xCECAE68A1F776C9B,
            0xB763E42DB205C482, 0xF7E23FC88F96AF8B, 0x81B745C02EFB0014,
        ),
        run(
            0x81B745C02EFB0014, 0xD4E3BE57964C7314, 0x9E61563A79FAAEF2,
            0x1FA119CE6822A72F, 0xF626B41E3BFCC9A1, 0x53EAFA9D91697872,
            0x78E38416331FF602, 0x0993CC793498096E, 0xD6831082A426A2FC,
        ),
        run(
            0xD6831082A426A2FC, 0x70E69BBDDDEBD0B9, 0xA6574F26B4030958,
            0xB207CF912A16594A, 0x496E8CFC880D6778, 0x664D429199C7A3B6,
            0x5117319E3D880171, 0xC9CC7879B9BB6D33, 0xD5EE5ABA27E73729,
        ),
        run(
            0xD5EE5ABA27E73729, 0xC670F57A6A8E1307, 0xD7D9F825A27D2EE1,
            0x04E951AE4A564CFC, 0x6D2BB449F4045F65, 0x842C15F2B0212E9B,
            0xC87D96C22CD5AA06, 0x4BACC9B2A90240D2, 0x8068201FA57C30D3,
        ),
        run(
            0x8068201FA57C30D3, 0x835185587BC49C72, 0x4CF42C003A0E49CA,
            0x4EC822B5BF6367D9, 0x1AED680D8E937756, 0xB65BBF1ED7C94438,
            0xEA63744D81D0D8B0, 0xA61DFA19DFF15501, 0xE1A40913956DD7EB,
        ),
        run(
            0xE1A40913956DD7EB, 0x8ED5D0D67EC79684, 0x36C7A32EE05D38A9,
            0xB49120561CF68898, 0x39A46CF3DB6C4389, 0x7230BCC7DD27594E,
            0x4AB8F728F89A847C, 0xF322ED6183AD2E74, 0x2E8FDCF0DC7F6928,
        ),
        run(
            0x2E8FDCF0DC7F6928, 0x1D587A8074CCDDFA, 0xDBCFDDAB292F7AC1,
            0xBBC5FA08B313B474, 0xCFE9C59E0C2E0E1C, 0x969344FF50765500,
            0x90A8446B8AB7F9AA, 0x67BB618476DBBCD9, 0xFA9F860584821DE0,
        ),
        run(
            0xFA9F860584821DE0, 0x1BBA51982F0661DB, 0xDC8A6326E54B7BD8,
            0x542E48B8A37A1B2F, 0xC0DFB1D1C66DC4D9, 0xB294CE18542B0910,
            0xFD2975D239671B02, 0xFB025BFD8CDB55B4, 0x927946F0379F0E1F,
        ),
        run(
            0x927946F0379F0E1F, 0xA6D5AD637E7657C3, 0x710EEEE6B8BF2BAC,
            0x968EE360C2873EFB, 0x37FBB4E3999EEE46, 0x515AC1E2E0EA821A,
            0xA8FCCF556CF4919E, 0xAD689C7BD740DF3D, 0xED27FF2288B831C3,
        ),
        run(
            0xED27FF2288B831C3, 0x4035E253475D5160, 0x16DC4CFAFB2FB3C2,
            0xB50DF3228B075C25, 0xE972B98313F8FBDD, 0x03A9B77F4E4E5D6A,
            0x913B03DA5E48DB50, 0x61A40FD25E649EE6, 0x10B318D0AC952E5B,
        ),
        run(
            0x10B318D0AC952E5B, 0xCDFF45C168C2F2C7, 0xE91CEFE6C93326E2,
            0x9953AFC45CEAB82F, 0x095101E0B4C6869F, 0xB392E4EC0C794C52,
            0x1982BCD8372CEA4A, 0x5C162B2B130D611E, 0xC7F1FB79D2E8FC5C,
        ),
        run(
            0xC7F1FB79D2E8FC5C, 0x0022F555F1B1BAA4, 0xE9DF5924E0CAF0D1,
            0x6791B9ED274D7170, 0xDA7045DDEF55B792, 0x0CE001EE47EEB87D,
            0xE9C71D00035ADA4D, 0xACD0CE1737D15CB9, 0xAD01804126FEF040,
        ),
        run(
            0xAD01804126FEF040, 0xF39C3DD9FE471DA0, 0xECE53384C8FEFB9B,
            0x499CC28B20FA80AC, 0xABDC8DC4E554DEAD, 0x88899DB45ADC7C50,
            0x6BCD7D3BABACD0A8, 0x7D5F87EBEBC8A309, 0xF2760BCA7A48D00F,
        ),
        run(
            0xF2760BCA7A48D00F, 0x877D97192257A26F, 0x299F6D599C6076EB,
            0xA96C4558E0146CC6, 0x8E556547B269B59F, 0xF2E14B8B53BBE134,
            0xD958AE3B602E5BF6, 0x367351B6A3843AC1, 0x41665FE6ED7DA2F4,
        ),
        run(
            0x41665FE6ED7DA2F4, 0xE514206F02F364B1, 0x86B9EAC210C98E38,
            0x6D834513B1049324, 0xE781FB18E322D302, 0x9C37A2D26C781624,
            0x01BA9C400A71EF08, 0xA2FEAFCBB653CED6, 0xDA8E4E9FF5801CCB,
        ),
        run(
            0xDA8E4E9FF5801CCB, 0x05E458A535914E32, 0xB03B7B347233A02E,
            0x43D28AECFBE60CEE, 0x05DC3FA56CE13B77, 0x0516B12CB09AC4C1,
            0x50766ED455C2E108, 0xE7DE1E449C6426CA, 0x65F9B1CBB0821C07,
        ),
        run(
            0x65F9B1CBB0821C07, 0xDFCFCF9DB71AF9FF, 0x25682A66B26D53CC,
            0x4BC2299ABAF2FA6B, 0x369E44D0A6CAE55F, 0x4EAB8B82673FC755,
            0xDE72D93ECFDCCD9B, 0xD1D61342394372C0, 0x421C2FA80BFF4425,
        ),
        run(
            0x421C2FA80BFF4425, 0x3F7265F06B6713ED, 0x93B0905CBD1C868A,
            0x6359D6DC69985D07, 0xE78026A12406CC7D, 0xB6D9D6C143387EA5,
            0x77AFFDB10E450718, 0x568B5437CBD74B16, 0x505AC7F678F0E000,
        ),
        run(
            0x505AC7F678F0E000, 0x8946288BB7B901C0, 0xAD4F2D9C692803C3,
            0xFB9D6EFD9D8AC304, 0xE702E03573659782, 0x37F8A2E88A4CFC2D,
            0xD26E5703CAC8CE95, 0x7CB3FF7ED22C5A48, 0x39B8C2DE0E2F90FC,
        ),
        run(
            0x39B8C2DE0E2F90FC, 0xAB9B528D2A7270DD, 0x0410A76EE459037C,
            0x12F89E6FD34AEE7A, 0x1CAA09FFC9D4A526, 0xEB6774B1DC1285EC,
            0x5EA17AC15C785BE7, 0x36C334B9AE8AB290, 0x0220FB382EC303F5,
        ),
        run(
            0x0220FB382EC303F5, 0xFF466D5C3F44D8B2, 0x504BAB55B61C3D83,
            0x9A31643317BF0538, 0x6648952514923532, 0xABB596F807201DD8,
            0x9F383A146B542BE3, 0x1D6A65F8251C1B74, 0xC644E9E5EDBA7E42,
        ),
        run(
            0xC644E9E5EDBA7E42, 0x123AAA97B34ADA3E, 0x5F68A7FD15C9000A,
            0x1D9D50091CB7D08A, 0x2002F9AF623DDDAB, 0x884F6BB4519BACD0,
            0x417BC6D7755BAF89, 0xED8B9B7B4D87DA96, 0xE985785F40FEB0A3,
        ),
        run(
            0xE985785F40FEB0A3, 0x5CC3A2EE1DC30502, 0x93E6FEA7D6898388,
            0x8C567614EE2B728F, 0xC61D84F2EC2E67AA, 0xCBE543F0ED5091E5,
            0xB290FDC3999EE986, 0x13A997A34F8D75D5, 0xAA43CC453009BA7E,
        ),
        run(
            0xAA43CC453009BA7E, 0x2B4DE201625CF68A, 0x3D8F073F32BAADE7,
            0xBD875F3A3530417C, 0xE592D364F899FEFE, 0xDF5FE17E4DCEB283,
            0xB21AE1C5CAE5EF26, 0xD7AE97F61F1F2D78, 0xEC2156374B014D22,
        ),
        run(
            0xEC2156374B014D22, 0x2739E8E942104738, 0x0844B1EF4F0EA9B6,
            0xCA38A4A6B5C61965, 0x8AE5BEF492296C17, 0x8890E3416ACADB0F,
            0xEAD93C14DB3A6D79, 0xECBBF34DBE7E67E3, 0x53E10CC571BF03EC,
        ),
        run(
            0x53E10CC571BF03EC, 0xD1F3B875793706EB, 0x7D4A90CE5A95B226,
            0xD55A573A748CD0C2, 0x59B3110BCA8FB9E3, 0xA2F05F1BF568BE50,
            0xA7AA193A793FFB2C, 0x7C27361C22E2CFDA, 0x6D988CFB8265BCC5,
        ),
        run(
            0x6D988CFB8265BCC5, 0x9A634463966EE6FC, 0x228CC48B1E460431,
            0x83732EF6118FA479, 0x895C628B60288571, 0x2C21CC5C3C11A83B,
            0x2B1275407E52E5AB, 0x798F633BA3E24AA0, 0x1A110DAF29092635,
        ),
        run(
            0x1A110DAF29092635, 0x796D82F723A61939, 0xC83CCECE91D63B4B,
            0xFCDDAAE9F5E825FD, 0x63EB24160D592AF6, 0x6B8B92D99811E523,
            0x18D32761CFAEEE29, 0xBD951437092519B5, 0xBADEC876B0CB9EC6,
        ),
        run(
            0xBADEC876B0CB9EC6, 0x1FB18779EC63787B, 0x2000D755E8FCC04B,
            0x47A276B672024B0B, 0xAA69FFAC0DAFED5D, 0x197CC12D486A45C7,
            0x35BB5B5641CB008C, 0x3EFFCF7B9483358D, 0xFFBED73DC49AF0A6,
        ),
        run(
            0xFFBED73DC49AF0A6, 0x9FF052079E352CC7, 0x159EB3379766975E,
            0xA0CE575468E64DF0, 0x4D08F3C9CACCFD6B, 0x01DDC293C9695E51,
            0xF16F9A05EE3C38AD, 0xF130A27A7AC3CB9C, 0xC1459D9611A12B0B,
        ),
        run(
            0xC1459D9611A12B0B, 0x1028504EE793CB9D, 0x855E001EB149AB4A,
            0x9EE0BBCABE10AA9C, 0x372BABFBE387ACC9, 0xBE987E416392B1D0,
            0x551C551092A5E0B3, 0xA9947617698AE7B2, 0x4B38C43CC4EC5EFD,
        ),
        run(
            0x4B38C43CC4EC5EFD, 0x172839433FAD9900, 0xAC379D22E5F08232,
            0x93137EA49331AFB6, 0x3B08240EE158E169, 0xE85D86CBE3592AEB,
            0xBE9EFC450374427E, 0x80F3C8C836D9F57A, 0xCF0747439E465810,
        ),
        run(
            0xCF0747439E465810, 0xF2646D3FE2AED0A0, 0x53ADCFDFA6C9A501,
            0xC563A9EA335B560B, 0x1582E40C5FE70267, 0x9BCFD4863592B5A3,
            0x39BDBBD13BF09808, 0xA8F6FED680D07B38, 0x9AE05BC13D3415CE,
        ),
        run(
            0x9AE05BC13D3415CE, 0x0985AD7AEC38CE65, 0xF76AB923036D86B9,
            0x28F619478935D3F4, 0x416AB7EA7B8BC553, 0xB96CBD25F915E619,
            0x0A9304B99C776B95, 0x146200969FE3C002, 0x31405694BC284702,
        ),
        run(
            0x31405694BC284702, 0xF2C2CBD0B9B9970C, 0xF05325C30A0AA722,
            0xB1D426AD2F8B3AEC, 0x35DE60D4DF751799, 0x1DAF60367E913BF6,
            0x093DDE03D95E2401, 0x0F5CC5A93DF7B809, 0xF561FB150F117539,
        ),
        run(
            0xF561FB150F117539, 0x7312C3A8BCD33993, 0x1C04673788169B20,
            0x37F13091CDE87E16, 0x8FBDF8634D7AEB6A, 0xD50FE280804F843C,
            0xB3D5893F4A419434, 0x0B98A8DAA20E9A1C, 0xE87A743D47FF8028,
        ),
        run(
            0xE87A743D47FF8028, 0xE9464251D8C57528, 0xE239A8A28F08B5C2,
            0x93E19FB636D19429, 0x4EEACF66E6DE1D41, 0x281CA1E3FD4AD13B,
            0x82B4FBB0E6916A59, 0xD8A17E37F3D7FECD, 0x6812636112F64270,
        ),
        run(
            0x6812636112F64270, 0x5F4DF7A7C0E532F4, 0x1B325D499B54C591,
            0xE1C4D33D1555285A, 0x15BD0909362AD48A, 0x9AD2FF563324E3A3,
            0x5633DD5C8F4622A4, 0xD5993B242C4687E1, 0x78BB0F56001FD2AE,
        ),
        run(
            0x78BB0F56001FD2AE, 0xC0F5CFB65CA8868B, 0x7DA717E9206D1546,
            0x91621003F6185EEC, 0x86FE5261D69C5551, 0x54ED7D7F0BF819BB,
            0xC8C40885C64EE748, 0x7B1E1C09D39EA886, 0x8983FD301A2D7457,
        ),
        run(
            0x8983FD301A2D7457, 0x9CDB0A14E930DB7F, 0xB45B8B6B9DA98509,
            0xEEE2B58A78D4B443, 0x03E8C26514566DEB, 0x4BCF249FB1B8DBF0,
            0x78199C2B571D5647, 0xD541177956781D2B, 0x35DB1320B6D4C7D1,
        ),
        run(
            0x35DB1320B6D4C7D1, 0xA0F3CF14AE4EBA1E, 0x2872FF96022B60EA,
            0x0836AE7851BC4CAB, 0x724CD835BA7D7EF2, 0x1FD138B41096788F,
            0x531111A2BD4497BE, 0x68CB7B5E59CE3111, 0xE5A150A0C2B5C933,
        ),
        run(
            0xE5A150A0C2B5C933, 0x8AE50CAE8BA68E61, 0x53E5E1DD18A47B3D,
            0x1299F794BDFA5C8B, 0x41E4F5E47463EAF2, 0x49DB79C17A61D1A7,
            0x06EE258B6D5D9BC4, 0x2EBAC9823C7F51F3, 0x414600CAAACDB390,
        ),
        run(
            0x414600CAAACDB390, 0x562D9E35A368CCF7, 0x1C38EB0B8ADFC0AE,
            0x53928D3BFB7194AF, 0x31535D5E1AFBBC46, 0x8437B06E5AD59ABE,
            0x6D5B0F603C475E0B, 0xC15C6AAB62C73277, 0x656DD3FFE026C1D3,
        ),
        run(
            0x656DD3FFE026C1D3, 0xC9E5977DFF4C9890, 0x0276B5C90FC425A1,
            0xC355DBD42332E5AA, 0x7AC537FC4EBAAAE1, 0x4B2C50F5C23947F4,
            0xDA7793471FE4487B, 0xB4FA8DD71D90FE2B, 0x39F97E1BA27F3517,
        ),
        run(
            0x39F97E1BA27F3517, 0xEA97A6E8312E6EBD, 0x756EFB8C1D403D20,
            0x26E3E377B865F55A, 0x469FEFD5A0A32830, 0x98FF1D2A82EE6260,
            0x8877B993ED7726A4, 0xE0D1A8D4B062E1E9, 0x852A13ABA1537E6A,
        ),
        run(
            0x852A13ABA1537E6A, 0x744C4348C92F0216, 0xDC6EF6A7C01B1992,
            0xF7CCAE67FC2D0B21, 0xC04762A6EB1DB977, 0x1D3E35ACA9013FC5,
            0xB5A798054E106CFA, 0xB963E5B4A84E32A3, 0x70E6F3D0D8CA6606,
        ),
        run(
            0x70E6F3D0D8CA6606, 0x0DF1DF5D61B6B34A, 0xB96C86EDF9E84CAC,
            0x9EA4F8993FF73735, 0x60069D9E7E95B41B, 0xC3029BE5A2E0F9B3,
            0x36934EBCA7AD3480, 0xF80175830EED4EE9, 0x3BF0428A06160E34,
        ),
        run(
            0x3BF0428A06160E34, 0xB35EECF2080F2F28, 0x374D38CBFCDDFB76,
            0x4EC929B659345D00, 0x5183FB37184575BA, 0x8AA741306A3DD1D1,
            0xFF9A31A0C3C3FE32, 0x53CB6F7067E1B54E, 0x6CCFBA9E82A2E5A4,
        ),
        run(
            0x6CCFBA9E82A2E5A4, 0x3E95C54BD974496F, 0x0903F2EBAE831A3D,
            0x03DB4E8BDCCD3349, 0x282E9DDAE88F5B6F, 0x2CF7C08069D77E19,
            0xD10DE4111E5276A5, 0xDDFD141B5037DB08, 0x7A43A2E17D7C76BE,
        ),
        run(
            0x7A43A2E17D7C76BE, 0x6AAB6ECDADEAE1D3, 0x7AF01EA0519320D0,
            0xC0A07F7F74C03291, 0xD358762AD11F36B4, 0xF0845D1D6E1425D9,
            0x05AD15CAE2DE5BD2, 0x645E76ECAC3D53E5, 0x628D443730497002,
        ),
        run(
            0x628D443730497002, 0xA16B719126B1A262, 0x011CDE5DAF9419A6,
            0x1112208B42D39815, 0xC9286925A7789A65, 0x4D6686C9857E5211,
            0x0E91CE4E96480AF5, 0x6E4B9CCF977887A0, 0x881047FBFBDD9EAF,
        ),
        run(
            0x881047FBFBDD9EAF, 0x4C0C77C1943C6E52, 0x98E8864711D9C20E,
            0xC0598722B5DF320A, 0xA5286848FCE54EEE, 0xC306CE1E0274FFF3,
            0x1268FD2F29298ACC, 0x09A29ABBD9F2EAD9, 0x4ECD1507BD38994C,
        ),
        run(
            0x4ECD1507BD38994C, 0x9F7EE7FF99B13B7E, 0x6EC64DA6A0B34688,
            0x5F3B2F66ADF88205, 0x90FA48AAAA415241, 0x5FEE49CB844360A5,
            0xB998483FB1CF6F24, 0xB30A205D2167B8FA, 0xF81DECD127C2090B,
        ),
        run(
            0xF81DECD127C2090B, 0xCA7EAFE46B9CAFD9, 0x521885E4501740C6,
            0xCDD3AD064AF19FC7, 0xBC221166138B6D38, 0x62906F113B1435E2,
            0x366A194510C12509, 0x09FF223A040EC503, 0xC89E44515B85F849,
        ),
        run(
            0xC89E44515B85F849, 0x8FEB097424B7C1F9, 0xE2EA349AF945F03A,
            0x97FBDEFD4978355A, 0x9387E9A44C2CD3B0, 0x63AD2D0D59D86617,
            0xF9F4EC5B5F86B31B, 0x95FEC548EF8C18BD, 0xA3DD4B8D01DA8FCC,
        ),
        run(
            0xA3DD4B8D01DA8FCC, 0x6E7BCB67AF2549D3, 0x36C510D82F131780,
            0xC7D7DBE19A26D1AF, 0x423AAA52250B17CC, 0x09034DD444BB72E3,
            0x0DEBEFAC153EDCC6, 0xD35DE3A778C550FF, 0xD2BA0458A643059E,
        ),
        run(
            0xD2BA0458A643059E, 0x7676BC4BAF572415, 0xCCD824B657782F1D,
            0x2ED5B3F89038B803, 0x70E304D12B50A9B3, 0xB7A943CC405A0420,
            0x4A4E77EFFE8FB828, 0x5BE6041D2F29AD58, 0x4F24BFD4BAB3A802,
        ),
        run(
            0x4F24BFD4BAB3A802, 0xF0C8008AD5888FD2, 0x20278F7BE7602A4D,
            0x148AF9AB7F5FD959, 0x99F0E394242A10AB, 0x4337EA3958670E4A,
            0xFE63850DF77112D6, 0xF0F79A9718678573, 0x65738D58326A76B9,
        ),
        run(
            0x65738D58326A76B9, 0x60F7968B0E6C2C14, 0xE652B75AE461714C,
            0x81DA57B9A68060AE, 0xB9E5CA2E6E1E8BEF, 0x8F658FD93E6DAD38,
            0x146AD0FED2193862, 0x8FB8FD562BDB5292, 0xA9882A491A6400B7,
        ),
        run(
            0xA9882A491A6400B7, 0xBBB7A99B9BAA0576, 0xE8AFDE3E9F4ACCFC,
            0xA8D60F7DA592E665, 0xF89B05E1937EFAE9, 0x6AD5D8966A039D5C,
            0xE79FF0CB2F574D66, 0x29A292E7718E7A7C, 0x7B57A757E0AC7988,
        ),
        run(
            0x7B57A757E0AC7988, 0xCD4BF7706DB4437B, 0xD0A46112426A953D,
            0x162478D4F042AF57, 0xAE2EA2D723711FC9, 0x26E84B262DE52FB6,
            0x00DCED802DD1C869, 0xFF82F000C38751B9, 0x7B807E66EB57115A,
        ),
        run(
            0x7B807E66EB57115A, 0x00301897429EA9F8, 0x696E8838CBD8EAAB,
            0x3DDBE020725C91BE, 0xE2323EE03991871D, 0x6FE6BF602BC6C353,
            0xE7A32BFB3661FA15, 0x68833BCF5E731CA1, 0x44A75A98DA2CF2D8,
        ),
        run(
            0x44A75A98DA2CF2D8, 0xFC1654A0C4851D3D, 0xA7BF4771F762F847,
            0xF912FD1B0BD4CC77, 0x594E5DA46120982F, 0xDB99C1A1177F32DF,
            0x937A61055A329B7A, 0x214B61494ED760CC, 0x55FD87147F917D0D,
        ),
        run(
            0x55FD87147F917D0D, 0x893A0FD6E5FEBCB7, 0x6CCE92D6F8108C0E,
            0x7577E5CB9D6E6E96, 0x9E483371338BD7CB, 0x2B42CAEAECA852A4,
            0x22599A334F332B01, 0x8958CC3DDA29AD17, 0x02D2F53EA94E5B8D,
        ),
        run(
            0x02D2F53EA94E5B8D, 0xC86353A0440F847A, 0x487C9A447C0DC5F2,
            0x215EE39B8AC8E2F9, 0x6F19EE92C942ED7C, 0x13C5E35C8E88B7A6,
            0xF22028F19DDE8F49, 0x3829D6235881C017, 0xCE7A6ACD4AEC2657,
        ),
        run(
            0xCE7A6ACD4AEC2657, 0x8A0A5B62F80C8BDB, 0x50339721A7BD040C,
            0x3BB15AF4513AFD04, 0x0E2B5E7C3B7B49FE, 0x446DF961753A00ED,
            0x526426F26615EFAC, 0xEADE6A4BE4B1AF73, 0x5638ED0A8B2770ED,
        ),
        run(
            0x5638ED0A8B2770ED, 0x5523FCF7F368A54C, 0xDBD7DC829C02A706,
            0x203E9AFB8AE3A3C8, 0xA2664ABF9C79968F, 0xDF6245A883312662,
            0x60328E0003EE9CAE, 0xE7533CD67FF5AA17, 0x4055568AD2242483,
        ),
{
}

/// One more entry.
proof fn next_agrees(n: int)
    requires
        0 < n,
        agree(n),
        KEYS@[n] == xorshift(KEYS@[n - 1]),
    ensures
        agree(n + 1),
{
    reveal(key_at);
    assert(key_at((n - 1) as nat) == KEYS@[n - 1]);
    assert(key_at(n as nat) == xorshift(key_at((n - 1) as nat)));
}

/// Eight more entries.
proof fn run_agrees(n: int)
    requires
        0 <= n,
        agree(n + 1),
        run(
            KEYS@[n],
            KEYS@[n + 1],
            KEYS@[n + 2],
            KEYS@[n + 3],
            KEYS@[n + 4],
            KEYS@[n + 5],
            KEYS@[n + 6],
            KEYS@[n + 7],
            KEYS@[n + 8],
        ),
    ensures
        agree(n + 9),
{
    next_agrees(n + 1);
    next_agrees(n + 2);
    next_agrees(n + 3);
    next_agrees(n + 4);
    next_agrees(n + 5);
    next_agrees(n + 6);
    next_agrees(n + 7);
    next_agrees(n + 8);
}

/// The table holds the key sequence.
proof fn table_is_the_sequence()
    ensures
        agree(NUM_KEYS as int),
{
    runs();
    assert(agree(1)) by {
        reveal(key_at);
        assert(key_at(0) == xorshift(SEED));
    }
    run_agrees(0);
    run_agrees(8);
    run_agrees(16);
    run_agrees(24);
    run_agrees(32);
    run_agrees(40);
    run_agrees(48);
    run_agrees(56);
    run_agrees(64);
    run_agrees(72);
    run_agrees(80);
    run_agrees(88);
    run_agrees(96);
    run_agrees(104);
    run_agrees(112);
    run_agrees(120);
    run_agrees(128);
    run_agrees(136);
    run_agrees(144);
    run_agrees(152);
    run_agrees(160);
    run_agrees(168);
    run_agrees(176);
    run_agrees(184);
    run_agrees(192);
    run_agrees(200);
    run_agrees(208);
    run_agrees(216);
    run_agrees(224);
    run_agrees(232);
    run_agrees(240);
    run_agrees(248);
    run_agrees(256);
    run_agrees(264);
    run_agrees(272);
    run_agrees(280);
    run_agrees(288);
    run_agrees(296);
    run_agrees(304);
    run_agrees(312);
    run_agrees(320);
    run_agrees(328);
    run_agrees(336);
    run_agrees(344);
    run_agrees(352);
    run_agrees(360);
    run_agrees(368);
    run_agrees(376);
    run_agrees(384);
    run_agrees(392);
    run_agrees(400);
    run_agrees(408);
    run_agrees(416);
    run_agrees(424);
    run_agrees(432);
    run_agrees(440);
    run_agrees(448);
    run_agrees(456);
    run_agrees(464);
    run_agrees(472);
    run_agrees(480);
    run_agrees(488);
    run_agrees(496);
    run_agrees(504);
    run_agrees(512);
    run_agrees(520);
    run_agrees(528);
    run_agrees(536);
    run_agrees(544);
    run_agrees(552);
    run_agrees(560);
    run_agrees(568);
    run_agrees(576);
    run_agrees(584);
    run_agrees(592);
    run_agrees(600);
    run_agrees(608);
    run_agrees(616);
    run_agrees(624);
    run_agrees(632);
    run_agrees(640);
    run_agrees(648);
    run_agrees(656);
    run_agrees(664);
    run_agrees(672);
    run_agrees(680);
    run_agrees(688);
    run_agrees(696);
    run_agrees(704);
    run_agrees(712);
    run_agrees(720);
    run_agrees(728);
    run_agrees(736);
    run_agrees(744);
    run_agrees(752);
    run_agrees(760);
    run_agrees(768);
    run_agrees(776);
    run_agrees(784);
}

/// Each entry is a key of the sequence.
proof fn entry_agrees(i: int)
    requires
        0 <= i < NUM_KEYS,
    ensures
        KEYS@[i] == key_at(i as nat),
{
    table_is_the_sequence();
}

/// The `i`-th key of the sequence.
pub(crate) fn key(i: usize) -> (k: u64)
    requires
        i < NUM_KEYS,
    ensures
        k == key_at(i as nat),
{
    proof {
        entry_agrees(i as int);
    }
    let t: &[u64; 793] = &KEYS;
    t[i]
}

} // verus!
