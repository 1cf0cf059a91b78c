//! The proof that the case table is well formed.

use vstd::prelude::*;
use crate::triangulation_table::{lone_corner, row_entry, row_ok, SENTINEL, TABLE};

verus! {

/// Whether `code` is the row of `pattern`.
pub open spec fn is_row_of(pattern: u64, code: u64) -> bool {
    &&& (pattern == 0 ==> code == 0xFFFF_FFFF_FFFF_FFFF)
    &&& (pattern == 1 ==> code == 0x038F_FFFF_FFFF_FFFF)
    &&& (pattern == 2 ==> code == 0x091F_FFFF_FFFF_FFFF)
    &&& (pattern == 3 ==> code == 0x1381_89FF_FFFF_FFFF)
    &&& (pattern == 4 ==> code == 0x1A2F_FFFF_FFFF_FFFF)
    &&& (pattern == 5 ==> code == 0x0381_A2FF_FFFF_FFFF)
    &&& (pattern == 6 ==> code == 0x0929_A2FF_FFFF_FFFF)
    &&& (pattern == 7 ==> code == 0x2382_8929_AFFF_FFFF)
    &&& (pattern == 8 ==> code == 0x2B3F_FFFF_FFFF_FFFF)
    &&& (pattern == 9 ==> code == 0x0282_B8FF_FFFF_FFFF)
    &&& (pattern == 10 ==> code == 0x0912_B3FF_FFFF_FFFF)
    &&& (pattern == 11 ==> code == 0x1282_B818_9FFF_FFFF)
    &&& (pattern == 12 ==> code == 0x1A3A_B3FF_FFFF_FFFF)
    &&& (pattern == 13 ==> code == 0x0181_A8AB_8FFF_FFFF)
    &&& (pattern == 14 ==> code == 0x0939_A3AB_3FFF_FFFF)
    &&& (pattern == 15 ==> code == 0x89A8_ABFF_FFFF_FFFF)
    &&& (pattern == 16 ==> code == 0x487F_FFFF_FFFF_FFFF)
    &&& (pattern == 17 ==> code == 0x0343_74FF_FFFF_FFFF)
    &&& (pattern == 18 ==> code == 0x0914_87FF_FFFF_FFFF)
    &&& (pattern == 19 ==> code == 0x1343_7414_9FFF_FFFF)
    &&& (pattern == 20 ==> code == 0x1A24_87FF_FFFF_FFFF)
    &&& (pattern == 21 ==> code == 0x0343_741A_2FFF_FFFF)
    &&& (pattern == 22 ==> code == 0x0929_A248_7FFF_FFFF)
    &&& (pattern == 23 ==> code == 0x2343_7424_929A_FFFF)
    &&& (pattern == 24 ==> code == 0x2B34_87FF_FFFF_FFFF)
    &&& (pattern == 25 ==> code == 0x0242_B4B7_4FFF_FFFF)
    &&& (pattern == 26 ==> code == 0x0912_B348_7FFF_FFFF)
    &&& (pattern == 27 ==> code == 0x1242_B4B7_4149_FFFF)
    &&& (pattern == 28 ==> code == 0x1A3A_B348_7FFF_FFFF)
    &&& (pattern == 29 ==> code == 0x0141_A4AB_4B74_FFFF)
    &&& (pattern == 30 ==> code == 0x0939_A3AB_3487_FFFF)
    &&& (pattern == 31 ==> code == 0x4979_A7AB_7FFF_FFFF)
    &&& (pattern == 32 ==> code == 0x459F_FFFF_FFFF_FFFF)
    &&& (pattern == 33 ==> code == 0x0384_59FF_FFFF_FFFF)
    &&& (pattern == 34 ==> code == 0x0414_51FF_FFFF_FFFF)
    &&& (pattern == 35 ==> code == 0x1343_8414_5FFF_FFFF)
    &&& (pattern == 36 ==> code == 0x1A24_59FF_FFFF_FFFF)
    &&& (pattern == 37 ==> code == 0x0381_A245_9FFF_FFFF)
    &&& (pattern == 38 ==> code == 0x0424_525A_2FFF_FFFF)
    &&& (pattern == 39 ==> code == 0x2343_8424_525A_FFFF)
    &&& (pattern == 40 ==> code == 0x2B34_59FF_FFFF_FFFF)
    &&& (pattern == 41 ==> code == 0x0282_B845_9FFF_FFFF)
    &&& (pattern == 42 ==> code == 0x0414_512B_3FFF_FFFF)
    &&& (pattern == 43 ==> code == 0x1242_B4B8_4145_FFFF)
    &&& (pattern == 44 ==> code == 0x1A3A_B345_9FFF_FFFF)
    &&& (pattern == 45 ==> code == 0x0181_A8AB_8459_FFFF)
    &&& (pattern == 46 ==> code == 0x0434_535A_3AB3_FFFF)
    &&& (pattern == 47 ==> code == 0x4585_A8AB_8FFF_FFFF)
    &&& (pattern == 48 ==> code == 0x5979_87FF_FFFF_FFFF)
    &&& (pattern == 49 ==> code == 0x0353_7505_9FFF_FFFF)
    &&& (pattern == 50 ==> code == 0x0818_7175_1FFF_FFFF)
    &&& (pattern == 51 ==> code == 0x1353_75FF_FFFF_FFFF)
    &&& (pattern == 52 ==> code == 0x1A25_9798_7FFF_FFFF)
    &&& (pattern == 53 ==> code == 0x0353_7505_91A2_FFFF)
    &&& (pattern == 54 ==> code == 0x0828_7275_25A2_FFFF)
    &&& (pattern == 55 ==> code == 0x2353_7525_AFFF_FFFF)
    &&& (pattern == 56 ==> code == 0x2B35_9798_7FFF_FFFF)
    &&& (pattern == 57 ==> code == 0x0252_B5B7_5059_FFFF)
    &&& (pattern == 58 ==> code == 0x0818_7175_12B3_FFFF)
    &&& (pattern == 59 ==> code == 0x1252_B5B7_5FFF_FFFF)
    &&& (pattern == 60 ==> code == 0x1A3A_B359_7987_FFFF)
    &&& (pattern == 61 ==> code == 0x0171_A7AB_7075_059F)
    &&& (pattern == 62 ==> code == 0x0870_7505_35AB_5B3F)
    &&& (pattern == 63 ==> code == 0x5A7A_B7FF_FFFF_FFFF)
    &&& (pattern == 64 ==> code == 0x56AF_FFFF_FFFF_FFFF)
    &&& (pattern == 65 ==> code == 0x0385_6AFF_FFFF_FFFF)
    &&& (pattern == 66 ==> code == 0x0915_6AFF_FFFF_FFFF)
    &&& (pattern == 67 ==> code == 0x1381_8956_AFFF_FFFF)
    &&& (pattern == 68 ==> code == 0x1525_62FF_FFFF_FFFF)
    &&& (pattern == 69 ==> code == 0x0381_5256_2FFF_FFFF)
    &&& (pattern == 70 ==> code == 0x0929_5256_2FFF_FFFF)
    &&& (pattern == 71 ==> code == 0x2353_8589_5256_FFFF)
    &&& (pattern == 72 ==> code == 0x2B35_6AFF_FFFF_FFFF)
    &&& (pattern == 73 ==> code == 0x0282_B856_AFFF_FFFF)
    &&& (pattern == 74 ==> code == 0x0912_B356_AFFF_FFFF)
    &&& (pattern == 75 ==> code == 0x1282_B818_956A_FFFF)
    &&& (pattern == 76 ==> code == 0x1535_636B_3FFF_FFFF)
    &&& (pattern == 77 ==> code == 0x0150_5606_86B8_FFFF)
    &&& (pattern == 78 ==> code == 0x0939_5356_36B3_FFFF)
    &&& (pattern == 79 ==> code == 0x5686_B858_9FFF_FFFF)
    &&& (pattern == 80 ==> code == 0x4875_6AFF_FFFF_FFFF)
    &&& (pattern == 81 ==> code == 0x0343_7456_AFFF_FFFF)
    &&& (pattern == 82 ==> code == 0x0914_8756_AFFF_FFFF)
    &&& (pattern == 83 ==> code == 0x1343_7414_956A_FFFF)
    &&& (pattern == 84 ==> code == 0x1525_6248_7FFF_FFFF)
    &&& (pattern == 85 ==> code == 0x0343_7415_2562_FFFF)
    &&& (pattern == 86 ==> code == 0x0929_5256_2487_FFFF)
    &&& (pattern == 87 ==> code == 0x2363_7674_9796_956F)
    &&& (pattern == 88 ==> code == 0x2B34_8756_AFFF_FFFF)
    &&& (pattern == 89 ==> code == 0x0242_B4B7_456A_FFFF)
    &&& (pattern == 90 ==> code == 0x0912_B348_756A_FFFF)
    &&& (pattern == 91 ==> code == 0x1242_B4B7_4149_56AF)
    &&& (pattern == 92 ==> code == 0x1535_636B_3487_FFFF)
    &&& (pattern == 93 ==> code == 0x0141_5456_B5B4_B74F)
    &&& (pattern == 94 ==> code == 0x0939_5356_36B3_487F)
    &&& (pattern == 95 ==> code == 0x4954_5B56_B4B7_FFFF)
    &&& (pattern == 96 ==> code == 0x4696_A9FF_FFFF_FFFF)
    &&& (pattern == 97 ==> code == 0x0384_696A_9FFF_FFFF)
    &&& (pattern == 98 ==> code == 0x0414_616A_1FFF_FFFF)
    &&& (pattern == 99 ==> code == 0x1343_8414_616A_FFFF)
    &&& (pattern == 100 ==> code == 0x1929_4246_2FFF_FFFF)
    &&& (pattern == 101 ==> code == 0x0381_9294_2462_FFFF)
    &&& (pattern == 102 ==> code == 0x0424_62FF_FFFF_FFFF)
    &&& (pattern == 103 ==> code == 0x2343_8424_6FFF_FFFF)
    &&& (pattern == 104 ==> code == 0x2B34_696A_9FFF_FFFF)
    &&& (pattern == 105 ==> code == 0x0282_B846_96A9_FFFF)
    &&& (pattern == 106 ==> code == 0x0414_616A_12B3_FFFF)
    &&& (pattern == 107 ==> code == 0x1242_B4B8_4146_16AF)
    &&& (pattern == 108 ==> code == 0x1939_4346_36B3_FFFF)
    &&& (pattern == 109 ==> code == 0x0161_9414_6068_6B8F)
    &&& (pattern == 110 ==> code == 0x0434_636B_3FFF_FFFF)
    &&& (pattern == 111 ==> code == 0x4686_B8FF_FFFF_FFFF)
    &&& (pattern == 112 ==> code == 0x6A7A_9798_7FFF_FFFF)
    &&& (pattern == 113 ==> code == 0x0363_7606_96A9_FFFF)
    &&& (pattern == 114 ==> code == 0x0818_7176_16A1_FFFF)
    &&& (pattern == 115 ==> code == 0x1363_7616_AFFF_FFFF)
    &&& (pattern == 116 ==> code == 0x1929_8287_2762_FFFF)
    &&& (pattern == 117 ==> code == 0x0363_7606_9629_219F)
    &&& (pattern == 118 ==> code == 0x0828_7276_2FFF_FFFF)
    &&& (pattern == 119 ==> code == 0x2363_76FF_FFFF_FFFF)
    &&& (pattern == 120 ==> code == 0x2B36_A7A9_7987_FFFF)
    &&& (pattern == 121 ==> code == 0x0272_B707_606A_0A9F)
    &&& (pattern == 122 ==> code == 0x0818_7176_16A1_2B3F)
    &&& (pattern == 123 ==> code == 0x1262_B727_616A_FFFF)
    &&& (pattern == 124 ==> code == 0x1939_8387_6863_6B3F)
    &&& (pattern == 125 ==> code == 0x0196_B7FF_FFFF_FFFF)
    &&& (pattern == 126 ==> code == 0x0838_7686_36B3_FFFF)
    &&& (pattern == 127 ==> code == 0x6B7F_FFFF_FFFF_FFFF)
    &&& (pattern == 128 ==> code == 0x67BF_FFFF_FFFF_FFFF)
    &&& (pattern == 129 ==> code == 0x0386_7BFF_FFFF_FFFF)
    &&& (pattern == 130 ==> code == 0x0916_7BFF_FFFF_FFFF)
    &&& (pattern == 131 ==> code == 0x1381_8967_BFFF_FFFF)
    &&& (pattern == 132 ==> code == 0x1A26_7BFF_FFFF_FFFF)
    &&& (pattern == 133 ==> code == 0x0381_A267_BFFF_FFFF)
    &&& (pattern == 134 ==> code == 0x0929_A267_BFFF_FFFF)
    &&& (pattern == 135 ==> code == 0x2382_8929_A67B_FFFF)
    &&& (pattern == 136 ==> code == 0x2636_73FF_FFFF_FFFF)
    &&& (pattern == 137 ==> code == 0x0260_6707_8FFF_FFFF)
    &&& (pattern == 138 ==> code == 0x0912_6367_3FFF_FFFF)
    &&& (pattern == 139 ==> code == 0x1261_6717_8189_FFFF)
    &&& (pattern == 140 ==> code == 0x1A3A_6367_3FFF_FFFF)
    &&& (pattern == 141 ==> code == 0x0161_A606_7078_FFFF)
    &&& (pattern == 142 ==> code == 0x0939_A3A6_3673_FFFF)
    &&& (pattern == 143 ==> code == 0x6786_8969_AFFF_FFFF)
    &&& (pattern == 144 ==> code == 0x4868_B6FF_FFFF_FFFF)
    &&& (pattern == 145 ==> code == 0x0343_B4B6_4FFF_FFFF)
    &&& (pattern == 146 ==> code == 0x0914_868B_6FFF_FFFF)
    &&& (pattern == 147 ==> code == 0x1343_B4B6_4149_FFFF)
    &&& (pattern == 148 ==> code == 0x1A24_868B_6FFF_FFFF)
    &&& (pattern == 149 ==> code == 0x0343_B4B6_41A2_FFFF)
    &&& (pattern == 150 ==> code == 0x0929_A248_68B6_FFFF)
    &&& (pattern == 151 ==> code == 0x2343_B636_424A_49AF)
    &&& (pattern == 152 ==> code == 0x2636_4348_3FFF_FFFF)
    &&& (pattern == 153 ==> code == 0x0242_64FF_FFFF_FFFF)
    &&& (pattern == 154 ==> code == 0x0912_6364_3483_FFFF)
    &&& (pattern == 155 ==> code == 0x1242_6414_9FFF_FFFF)
    &&& (pattern == 156 ==> code == 0x1A3A_6364_3483_FFFF)
    &&& (pattern == 157 ==> code == 0x0141_A4A6_4FFF_FFFF)
    &&& (pattern == 158 ==> code == 0x0939_A3A6_3643_483F)
    &&& (pattern == 159 ==> code == 0x4969_A6FF_FFFF_FFFF)
    &&& (pattern == 160 ==> code == 0x4596_7BFF_FFFF_FFFF)
    &&& (pattern == 161 ==> code == 0x0384_5967_BFFF_FFFF)
    &&& (pattern == 162 ==> code == 0x0414_5167_BFFF_FFFF)
    &&& (pattern == 163 ==> code == 0x1343_8414_567B_FFFF)
    &&& (pattern == 164 ==> code == 0x1A24_5967_BFFF_FFFF)
    &&& (pattern == 165 ==> code == 0x0381_A245_967B_FFFF)
    &&& (pattern == 166 ==> code == 0x0424_525A_267B_FFFF)
    &&& (pattern == 167 ==> code == 0x2343_8424_525A_67BF)
    &&& (pattern == 168 ==> code == 0x2636_7345_9FFF_FFFF)
    &&& (pattern == 169 ==> code == 0x0260_6707_8459_FFFF)
    &&& (pattern == 170 ==> code == 0x0414_5126_3673_FFFF)
    &&& (pattern == 171 ==> code == 0x1252_6567_8685_845F)
    &&& (pattern == 172 ==> code == 0x1A3A_6367_3459_FFFF)
    &&& (pattern == 173 ==> code == 0x0161_A606_7078_459F)
    &&& (pattern == 174 ==> code == 0x0434_535A_3A67_A73F)
    &&& (pattern == 175 ==> code == 0x4585_A656_8678_FFFF)
    &&& (pattern == 176 ==> code == 0x5969_868B_6FFF_FFFF)
    &&& (pattern == 177 ==> code == 0x0353_B5B6_5059_FFFF)
    &&& (pattern == 178 ==> code == 0x0818_B1B6_1651_FFFF)
    &&& (pattern == 179 ==> code == 0x1353_B5B6_5FFF_FFFF)
    &&& (pattern == 180 ==> code == 0x1A25_9698_68B6_FFFF)
    &&& (pattern == 181 ==> code == 0x0353_B5B6_5059_1A2F)
    &&& (pattern == 182 ==> code == 0x0828_B2B6_5B52_5A2F)
    &&& (pattern == 183 ==> code == 0x2353_B5B6_525A_FFFF)
    &&& (pattern == 184 ==> code == 0x2636_5359_3983_FFFF)
    &&& (pattern == 185 ==> code == 0x0252_6505_9FFF_FFFF)
    &&& (pattern == 186 ==> code == 0x0818_3282_1261_651F)
    &&& (pattern == 187 ==> code == 0x1252_65FF_FFFF_FFFF)
    &&& (pattern == 188 ==> code == 0x1A61_6365_3593_983F)
    &&& (pattern == 189 ==> code == 0x0151_A616_5059_FFFF)
    &&& (pattern == 190 ==> code == 0x0835_A6FF_FFFF_FFFF)
    &&& (pattern == 191 ==> code == 0x5A6F_FFFF_FFFF_FFFF)
    &&& (pattern == 192 ==> code == 0x57A7_BAFF_FFFF_FFFF)
    &&& (pattern == 193 ==> code == 0x0385_7A7B_AFFF_FFFF)
    &&& (pattern == 194 ==> code == 0x0915_7A7B_AFFF_FFFF)
    &&& (pattern == 195 ==> code == 0x1381_8957_A7BA_FFFF)
    &&& (pattern == 196 ==> code == 0x1525_727B_2FFF_FFFF)
    &&& (pattern == 197 ==> code == 0x0381_5257_27B2_FFFF)
    &&& (pattern == 198 ==> code == 0x0929_5257_27B2_FFFF)
    &&& (pattern == 199 ==> code == 0x2353_8589_5257_27BF)
    &&& (pattern == 200 ==> code == 0x2A3A_5357_3FFF_FFFF)
    &&& (pattern == 201 ==> code == 0x0252_A505_7078_FFFF)
    &&& (pattern == 202 ==> code == 0x0912_A3A5_3573_FFFF)
    &&& (pattern == 203 ==> code == 0x1272_A525_7179_789F)
    &&& (pattern == 204 ==> code == 0x1535_73FF_FFFF_FFFF)
    &&& (pattern == 205 ==> code == 0x0150_5707_8FFF_FFFF)
    &&& (pattern == 206 ==> code == 0x0939_5357_3FFF_FFFF)
    &&& (pattern == 207 ==> code == 0x5785_89FF_FFFF_FFFF)
    &&& (pattern == 208 ==> code == 0x4858_B5BA_5FFF_FFFF)
    &&& (pattern == 209 ==> code == 0x0343_B4BA_4A54_FFFF)
    &&& (pattern == 210 ==> code == 0x0914_858B_5BA5_FFFF)
    &&& (pattern == 211 ==> code == 0x1343_B4BA_4A54_149F)
    &&& (pattern == 212 ==> code == 0x1525_4248_28B2_FFFF)
    &&& (pattern == 213 ==> code == 0x0353_B5B2_1B15_054F)
    &&& (pattern == 214 ==> code == 0x0950_5254_2482_8B2F)
    &&& (pattern == 215 ==> code == 0x23B4_95FF_FFFF_FFFF)
    &&& (pattern == 216 ==> code == 0x2A3A_5354_3483_FFFF)
    &&& (pattern == 217 ==> code == 0x0242_A4A5_4FFF_FFFF)
    &&& (pattern == 218 ==> code == 0x0912_A3A5_3543_483F)
    &&& (pattern == 219 ==> code == 0x1242_A4A5_4149_FFFF)
    &&& (pattern == 220 ==> code == 0x1535_4348_3FFF_FFFF)
    &&& (pattern == 221 ==> code == 0x0141_54FF_FFFF_FFFF)
    &&& (pattern == 222 ==> code == 0x0939_5354_3483_FFFF)
    &&& (pattern == 223 ==> code == 0x495F_FFFF_FFFF_FFFF)
    &&& (pattern == 224 ==> code == 0x4797_B9BA_9FFF_FFFF)
    &&& (pattern == 225 ==> code == 0x0384_797B_9BA9_FFFF)
    &&& (pattern == 226 ==> code == 0x0414_717B_1BA1_FFFF)
    &&& (pattern == 227 ==> code == 0x1343_8414_717B_1BAF)
    &&& (pattern == 228 ==> code == 0x1929_4247_27B2_FFFF)
    &&& (pattern == 229 ==> code == 0x0381_9294_2472_7B2F)
    &&& (pattern == 230 ==> code == 0x0424_727B_2FFF_FFFF)
    &&& (pattern == 231 ==> code == 0x2343_8424_727B_FFFF)
    &&& (pattern == 232 ==> code == 0x2A3A_9394_3473_FFFF)
    &&& (pattern == 233 ==> code == 0x0272_A7A9_7947_078F)
    &&& (pattern == 234 ==> code == 0x0434_7303_A32A_0A1F)
    &&& (pattern == 235 ==> code == 0x12A4_78FF_FFFF_FFFF)
    &&& (pattern == 236 ==> code == 0x1939_4347_3FFF_FFFF)
    &&& (pattern == 237 ==> code == 0x0141_9404_7078_FFFF)
    &&& (pattern == 238 ==> code == 0x0434_73FF_FFFF_FFFF)
    &&& (pattern == 239 ==> code == 0x478F_FFFF_FFFF_FFFF)
    &&& (pattern == 240 ==> code == 0x8B9B_A9FF_FFFF_FFFF)
    &&& (pattern == 241 ==> code == 0x0393_B9BA_9FFF_FFFF)
    &&& (pattern == 242 ==> code == 0x0818_B1BA_1FFF_FFFF)
    &&& (pattern == 243 ==> code == 0x13A3_BAFF_FFFF_FFFF)
    &&& (pattern == 244 ==> code == 0x1929_828B_2FFF_FFFF)
    &&& (pattern == 245 ==> code == 0x0393_B1B2_1319_FFFF)
    &&& (pattern == 246 ==> code == 0x0828_B2FF_FFFF_FFFF)
    &&& (pattern == 247 ==> code == 0x23BF_FFFF_FFFF_FFFF)
    &&& (pattern == 248 ==> code == 0x2A3A_9398_3FFF_FFFF)
    &&& (pattern == 249 ==> code == 0x0292_A9FF_FFFF_FFFF)
    &&& (pattern == 250 ==> code == 0x0818_3132_A3A1_FFFF)
    &&& (pattern == 251 ==> code == 0x12AF_FFFF_FFFF_FFFF)
    &&& (pattern == 252 ==> code == 0x1939_83FF_FFFF_FFFF)
    &&& (pattern == 253 ==> code == 0x019F_FFFF_FFFF_FFFF)
    &&& (pattern == 254 ==> code == 0x083F_FFFF_FFFF_FFFF)
    &&& (pattern == 255 ==> code == 0xFFFF_FFFF_FFFF_FFFF)
}

/// Every row of the table is well formed for its pattern: each triangle
/// that the table lists has its three corners on edges that the surface
/// cuts. The patterns with no corner or every corner solid have no
/// triangle, and those with one corner apart from the rest have exactly
/// one.
pub proof fn lemma_table_rows_ok(pattern: u64)
    requires
        pattern < 256,
    ensures
        row_ok(TABLE[pattern as int], pattern),
        pattern == 0 || pattern == 255 ==> row_entry(TABLE[pattern as int], 0) == SENTINEL,
        lone_corner(pattern) ==> row_entry(TABLE[pattern as int], 0) != SENTINEL && row_entry(
            TABLE[pattern as int],
            3,
        ) == SENTINEL,
{
    let code = TABLE[pattern as int];
    assert(is_row_of(pattern, code));
    assert(row_ok(code, pattern) && (pattern == 0 || pattern == 255 ==> row_entry(code, 0)
        == SENTINEL) && (lone_corner(pattern) ==> row_entry(code, 0) != SENTINEL && row_entry(
        code,
        3,
    ) == SENTINEL)) by (bit_vector)
        requires
            pattern < 256,
            is_row_of(pattern, code),
    ;
}

} // verus!
