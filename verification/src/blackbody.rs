//! Rendering a color temperature as an approximate RGB color.
//!
//! The conversion follows the common blackbody curve fit: below 67 the red
//! channel saturates at 255 and green follows `99.4708025861 * ln(temp) -
//! 161.1195681661`; above 66 red follows `329.698727488 * (temp - 60) ^
//! -0.1332047592` and green `161.1195681661 * (temp - 60) ^ -0.0755148492`;
//! blue saturates at 255 from 66 upward, is 0 up to 19, and follows
//! `138.5177312231 * ln(temp - 10) - 305.0447927307` in between. Every channel
//! is clamped to `[0, 255]` and rounded to the nearest integer. The crate
//! keeps to integer arithmetic, so each rounded, clamped curve is written out
//! here as the exact step function it is: a chain of the thresholds at which
//! the rounded value changes, covering the whole `u32` range.

use vstd::prelude::*;

use crate::color::Color;

verus! {

/// The rounded red channel for temperatures above 66.
pub open spec fn spec_red_curve(temp: u32) -> u8 {
    if temp < 68 { 254 } else if temp < 69 { 250 } else if temp < 70 { 246 } else
        if temp < 71 { 243 } else if temp < 72 { 240 } else if temp < 73 { 237 } else
        if temp < 74 { 234 } else if temp < 75 { 232 } else if temp < 76 { 230 } else
        if temp < 77 { 228 } else if temp < 78 { 226 } else if temp < 79 { 224 } else
        if temp < 80 { 223 } else if temp < 81 { 221 } else if temp < 82 { 220 } else
        if temp < 83 { 218 } else if temp < 84 { 217 } else if temp < 85 { 216 } else
        if temp < 86 { 215 } else if temp < 87 { 214 } else if temp < 88 { 213 } else
        if temp < 89 { 212 } else if temp < 90 { 211 } else if temp < 91 { 210 } else
        if temp < 92 { 209 } else if temp < 93 { 208 } else if temp < 94 { 207 } else
        if temp < 95 { 206 } else if temp < 97 { 205 } else if temp < 98 { 204 } else
        if temp < 99 { 203 } else if temp < 101 { 202 } else if temp < 102 { 201 } else
        if temp < 104 { 200 } else if temp < 106 { 199 } else if temp < 107 { 198 } else
        if temp < 109 { 197 } else if temp < 111 { 196 } else if temp < 113 { 195 } else
        if temp < 115 { 194 } else if temp < 117 { 193 } else if temp < 120 { 192 } else
        if temp < 122 { 191 } else if temp < 124 { 190 } else if temp < 127 { 189 } else
        if temp < 130 { 188 } else if temp < 133 { 187 } else if temp < 136 { 186 } else
        if temp < 139 { 185 } else if temp < 142 { 184 } else if temp < 145 { 183 } else
        if temp < 149 { 182 } else if temp < 153 { 181 } else if temp < 157 { 180 } else
        if temp < 161 { 179 } else if temp < 165 { 178 } else if temp < 169 { 177 } else
        if temp < 174 { 176 } else if temp < 179 { 175 } else if temp < 184 { 174 } else
        if temp < 190 { 173 } else if temp < 196 { 172 } else if temp < 202 { 171 } else
        if temp < 208 { 170 } else if temp < 215 { 169 } else if temp < 222 { 168 } else
        if temp < 229 { 167 } else if temp < 237 { 166 } else if temp < 245 { 165 } else
        if temp < 254 { 164 } else if temp < 263 { 163 } else if temp < 273 { 162 } else
        if temp < 283 { 161 } else if temp < 294 { 160 } else if temp < 305 { 159 } else
        if temp < 317 { 158 } else if temp < 329 { 157 } else if temp < 343 { 156 } else
        if temp < 357 { 155 } else if temp < 371 { 154 } else if temp < 387 { 153 } else
        if temp < 403 { 152 } else if temp < 421 { 151 } else if temp < 439 { 150 } else
        if temp < 459 { 149 } else if temp < 480 { 148 } else if temp < 502 { 147 } else
        if temp < 525 { 146 } else if temp < 550 { 145 } else if temp < 576 { 144 } else
        if temp < 604 { 143 } else if temp < 633 { 142 } else if temp < 664 { 141 } else
        if temp < 698 { 140 } else if temp < 733 { 139 } else if temp < 771 { 138 } else
        if temp < 811 { 137 } else if temp < 853 { 136 } else if temp < 899 { 135 } else
        if temp < 947 { 134 } else if temp < 998 { 133 } else if temp < 1053 { 132 } else
        if temp < 1112 { 131 } else if temp < 1174 { 130 } else if temp < 1241 { 129 } else
        if temp < 1312 { 128 } else if temp < 1389 { 127 } else if temp < 1470 { 126 } else
        if temp < 1557 { 125 } else if temp < 1651 { 124 } else if temp < 1751 { 123 } else
        if temp < 1858 { 122 } else if temp < 1973 { 121 } else if temp < 2097 { 120 } else
        if temp < 2229 { 119 } else if temp < 2372 { 118 } else if temp < 2525 { 117 } else
        if temp < 2690 { 116 } else if temp < 2867 { 115 } else if temp < 3058 { 114 } else
        if temp < 3264 { 113 } else if temp < 3486 { 112 } else if temp < 3726 { 111 } else
        if temp < 3985 { 110 } else if temp < 4264 { 109 } else if temp < 4567 { 108 } else
        if temp < 4895 { 107 } else if temp < 5249 { 106 } else if temp < 5634 { 105 } else
        if temp < 6051 { 104 } else if temp < 6504 { 103 } else if temp < 6996 { 102 } else
        if temp < 7531 { 101 } else if temp < 8114 { 100 } else if temp < 8748 { 99 } else
        if temp < 9440 { 98 } else if temp < 10195 { 97 } else if temp < 11019 { 96 } else
        if temp < 11920 { 95 } else if temp < 12906 { 94 } else if temp < 13986 { 93 } else
        if temp < 15170 { 92 } else if temp < 16469 { 91 } else if temp < 17897 { 90 } else
        if temp < 19467 { 89 } else if temp < 21195 { 88 } else if temp < 23100 { 87 } else
        if temp < 25201 { 86 } else if temp < 27523 { 85 } else if temp < 30090 { 84 } else
        if temp < 32933 { 83 } else if temp < 36084 { 82 } else if temp < 39583 { 81 } else
        if temp < 43471 { 80 } else if temp < 47799 { 79 } else if temp < 52622 { 78 } else
        if temp < 58005 { 77 } else if temp < 64021 { 76 } else if temp < 70755 { 75 } else
        if temp < 78303 { 74 } else if temp < 86778 { 73 } else if temp < 96308 { 72 } else
        if temp < 107043 { 71 } else if temp < 119154 { 70 } else if temp < 132843 { 69 } else
        if temp < 148342 { 68 } else if temp < 165924 { 67 } else if temp < 185905 { 66 } else
        if temp < 208659 { 65 } else if temp < 234621 { 64 } else if temp < 264306 { 63 } else
        if temp < 298321 { 62 } else if temp < 337383 { 61 } else if temp < 382344 { 60 } else
        if temp < 434218 { 59 } else if temp < 494213 { 58 } else if temp < 563779 { 57 } else
        if temp < 644651 { 56 } else if temp < 738925 { 55 } else if temp < 849130 { 54 } else
        if temp < 978336 { 53 } else if temp < 1130279 { 52 } else if temp < 1309523 { 51 } else
        if temp < 1521666 { 50 } else if temp < 1773606 { 49 } else if temp < 2073870 { 48 } else
        if temp < 2433052 { 47 } else if temp < 2864374 { 46 } else if temp < 3384415 { 45 } else
        if temp < 4014066 { 44 } else if temp < 4779792 { 43 } else if temp < 5715303 { 42 } else
        if temp < 6863778 { 41 } else if temp < 8280864 { 40 } else if temp < 10038722 { 39 } else
        if temp < 12231555 { 38 } else if temp < 14983190 { 37 } else if temp < 18457595 { 36 } else
        if temp < 22873579 { 35 } else if temp < 28525517 { 34 } else if temp < 35812898 { 33 } else
        if temp < 45282836 { 32 } else if temp < 57691958 { 31 } else if temp < 74097519 { 30 } else
        if temp < 95993246 { 29 } else if temp < 125514574 { 28 } else if temp < 165753120 { 27 } else
        if temp < 221245940 { 26 } else if temp < 298749217 { 25 } else if temp < 408483423 { 24 } else
        if temp < 566175687 { 23 } else if temp < 796479444 { 22 } else
        if temp < 1138829726 { 21 } else if temp < 1657717002 { 20 } else
        if temp < 2461203475 { 19 } else if temp < 3735294292 { 18 } else { 17 }
}

/// The rounded green channel for temperatures up to 66.
pub open spec fn spec_green_low_curve(temp: u32) -> u8 {
    if temp < 6 { 0 } else if temp < 7 { 17 } else if temp < 8 { 32 } else if temp < 9 { 46 } else
        if temp < 10 { 57 } else if temp < 11 { 68 } else if temp < 12 { 77 } else
        if temp < 13 { 86 } else if temp < 14 { 94 } else if temp < 15 { 101 } else
        if temp < 16 { 108 } else if temp < 17 { 115 } else if temp < 18 { 121 } else
        if temp < 19 { 126 } else if temp < 20 { 132 } else if temp < 21 { 137 } else
        if temp < 22 { 142 } else if temp < 23 { 146 } else if temp < 24 { 151 } else
        if temp < 25 { 155 } else if temp < 26 { 159 } else if temp < 27 { 163 } else
        if temp < 28 { 167 } else if temp < 29 { 170 } else if temp < 30 { 174 } else
        if temp < 31 { 177 } else if temp < 32 { 180 } else if temp < 33 { 184 } else
        if temp < 34 { 187 } else if temp < 35 { 190 } else if temp < 36 { 193 } else
        if temp < 37 { 195 } else if temp < 38 { 198 } else if temp < 39 { 201 } else
        if temp < 40 { 203 } else if temp < 41 { 206 } else if temp < 42 { 208 } else
        if temp < 43 { 211 } else if temp < 44 { 213 } else if temp < 45 { 215 } else
        if temp < 46 { 218 } else if temp < 47 { 220 } else if temp < 48 { 222 } else
        if temp < 49 { 224 } else if temp < 50 { 226 } else if temp < 51 { 228 } else
        if temp < 52 { 230 } else if temp < 53 { 232 } else if temp < 54 { 234 } else
        if temp < 55 { 236 } else if temp < 56 { 237 } else if temp < 57 { 239 } else
        if temp < 58 { 241 } else if temp < 59 { 243 } else if temp < 60 { 244 } else
        if temp < 61 { 246 } else if temp < 62 { 248 } else if temp < 63 { 249 } else
        if temp < 64 { 251 } else if temp < 65 { 253 } else if temp < 66 { 254 } else { 255 }
}

/// The rounded green channel for temperatures above 66.
pub open spec fn spec_green_high_curve(temp: u32) -> u8 {
    if temp < 68 { 139 } else if temp < 69 { 138 } else if temp < 70 { 136 } else
        if temp < 71 { 135 } else if temp < 73 { 134 } else if temp < 74 { 133 } else
        if temp < 75 { 132 } else if temp < 77 { 131 } else if temp < 79 { 130 } else
        if temp < 80 { 129 } else if temp < 83 { 128 } else if temp < 85 { 127 } else
        if temp < 88 { 126 } else if temp < 91 { 125 } else if temp < 94 { 124 } else
        if temp < 98 { 123 } else if temp < 102 { 122 } else if temp < 107 { 121 } else
        if temp < 113 { 120 } else if temp < 119 { 119 } else if temp < 126 { 118 } else
        if temp < 134 { 117 } else if temp < 143 { 116 } else if temp < 153 { 115 } else
        if temp < 164 { 114 } else if temp < 177 { 113 } else if temp < 191 { 112 } else
        if temp < 208 { 111 } else if temp < 227 { 110 } else if temp < 248 { 109 } else
        if temp < 273 { 108 } else if temp < 301 { 107 } else if temp < 333 { 106 } else
        if temp < 370 { 105 } else if temp < 411 { 104 } else if temp < 460 { 103 } else
        if temp < 515 { 102 } else if temp < 579 { 101 } else if temp < 652 { 100 } else
        if temp < 737 { 99 } else if temp < 835 { 98 } else if temp < 948 { 97 } else
        if temp < 1079 { 96 } else if temp < 1231 { 95 } else if temp < 1408 { 94 } else
        if temp < 1615 { 93 } else if temp < 1855 { 92 } else if temp < 2136 { 91 } else
        if temp < 2466 { 90 } else if temp < 2851 { 89 } else if temp < 3305 { 88 } else
        if temp < 3838 { 87 } else if temp < 4467 { 86 } else if temp < 5210 { 85 } else
        if temp < 6089 { 84 } else if temp < 7132 { 83 } else if temp < 8371 { 82 } else
        if temp < 9847 { 81 } else if temp < 11609 { 80 } else if temp < 13717 { 79 } else
        if temp < 16244 { 78 } else if temp < 19280 { 77 } else if temp < 22939 { 76 } else
        if temp < 27357 { 75 } else if temp < 32706 { 74 } else if temp < 39200 { 73 } else
        if temp < 47103 { 72 } else if temp < 56749 { 71 } else if temp < 68554 { 70 } else
        if temp < 83046 { 69 } else if temp < 100888 { 68 } else if temp < 122923 { 67 } else
        if temp < 150222 { 66 } else if temp < 184154 { 65 } else if temp < 226473 { 64 } else
        if temp < 279438 { 63 } else if temp < 345962 { 62 } else if temp < 429830 { 61 } else
        if temp < 535967 { 60 } else if temp < 670822 { 59 } else if temp < 842867 { 58 } else
        if temp < 1063290 { 57 } else if temp < 1346939 { 56 } else if temp < 1713611 { 55 } else
        if temp < 2189849 { 54 } else if temp < 2811423 { 53 } else if temp < 3626819 { 52 } else
        if temp < 4702131 { 51 } else if temp < 6128012 { 50 } else if temp < 8029570 { 49 } else
        if temp < 10580610 { 48 } else if temp < 14024224 { 47 } else if temp < 18702838 { 46 } else
        if temp < 25102382 { 45 } else if temp < 33917780 { 44 } else if temp < 46150889 { 43 } else
        if temp < 63258321 { 42 } else if temp < 87376686 { 41 } else if temp < 121669245 { 40 } else
        if temp < 170865068 { 39 } else if temp < 242106847 { 38 } else if temp < 346299613 { 37 } else
        if temp < 500282618 { 36 } else if temp < 730371991 { 35 } else
        if temp < 1078218294 { 34 } else if temp < 1610631534 { 33 } else
        if temp < 2436313225 { 32 } else if temp < 3734814229 { 31 } else { 30 }
}

/// The rounded blue channel for temperatures between 20 and 65.
pub open spec fn spec_blue_curve(temp: u32) -> u8 {
    if temp < 21 { 14 } else if temp < 22 { 27 } else if temp < 23 { 39 } else
        if temp < 24 { 50 } else if temp < 25 { 61 } else if temp < 26 { 70 } else
        if temp < 27 { 79 } else if temp < 28 { 87 } else if temp < 29 { 95 } else
        if temp < 30 { 103 } else if temp < 31 { 110 } else if temp < 32 { 117 } else
        if temp < 33 { 123 } else if temp < 34 { 129 } else if temp < 35 { 135 } else
        if temp < 36 { 141 } else if temp < 37 { 146 } else if temp < 38 { 151 } else
        if temp < 39 { 157 } else if temp < 40 { 161 } else if temp < 41 { 166 } else
        if temp < 42 { 171 } else if temp < 43 { 175 } else if temp < 44 { 179 } else
        if temp < 45 { 183 } else if temp < 46 { 187 } else if temp < 47 { 191 } else
        if temp < 48 { 195 } else if temp < 49 { 199 } else if temp < 50 { 202 } else
        if temp < 51 { 206 } else if temp < 52 { 209 } else if temp < 53 { 213 } else
        if temp < 54 { 216 } else if temp < 55 { 219 } else if temp < 56 { 222 } else
        if temp < 57 { 225 } else if temp < 58 { 228 } else if temp < 59 { 231 } else
        if temp < 60 { 234 } else if temp < 61 { 237 } else if temp < 62 { 240 } else
        if temp < 63 { 242 } else if temp < 64 { 245 } else if temp < 65 { 248 } else { 250 }
}

/// The red channel of the conversion: saturated below 67, the fitted curve
/// above.
pub open spec fn spec_red_channel(temp: u32) -> u8 {
    if temp <= 66 {
        255
    } else {
        spec_red_curve(temp)
    }
}

/// The green channel of the conversion: one fitted curve on each side of 66.
pub open spec fn spec_green_channel(temp: u32) -> u8 {
    if temp <= 66 {
        spec_green_low_curve(temp)
    } else {
        spec_green_high_curve(temp)
    }
}

/// The blue channel of the conversion: 0 up to 19, saturated from 66 upward,
/// the fitted curve in between.
pub open spec fn spec_blue_channel(temp: u32) -> u8 {
    if temp >= 66 {
        255
    } else if temp <= 19 {
        0
    } else {
        spec_blue_curve(temp)
    }
}

/// The full conversion from a color temperature to an approximate color.
pub open spec fn spec_temp_to_color(temp: u32) -> Color {
    Color {
        red: spec_red_channel(temp),
        green: spec_green_channel(temp),
        blue: spec_blue_channel(temp),
    }
}

fn red_curve(temp: u32) -> (r: u8)
    ensures
        r == spec_red_curve(temp),
{
    if temp < 68 { 254 } else if temp < 69 { 250 } else if temp < 70 { 246 } else
        if temp < 71 { 243 } else if temp < 72 { 240 } else if temp < 73 { 237 } else
        if temp < 74 { 234 } else if temp < 75 { 232 } else if temp < 76 { 230 } else
        if temp < 77 { 228 } else if temp < 78 { 226 } else if temp < 79 { 224 } else
        if temp < 80 { 223 } else if temp < 81 { 221 } else if temp < 82 { 220 } else
        if temp < 83 { 218 } else if temp < 84 { 217 } else if temp < 85 { 216 } else
        if temp < 86 { 215 } else if temp < 87 { 214 } else if temp < 88 { 213 } else
        if temp < 89 { 212 } else if temp < 90 { 211 } else if temp < 91 { 210 } else
        if temp < 92 { 209 } else if temp < 93 { 208 } else if temp < 94 { 207 } else
        if temp < 95 { 206 } else if temp < 97 { 205 } else if temp < 98 { 204 } else
        if temp < 99 { 203 } else if temp < 101 { 202 } else if temp < 102 { 201 } else
        if temp < 104 { 200 } else if temp < 106 { 199 } else if temp < 107 { 198 } else
        if temp < 109 { 197 } else if temp < 111 { 196 } else if temp < 113 { 195 } else
        if temp < 115 { 194 } else if temp < 117 { 193 } else if temp < 120 { 192 } else
        if temp < 122 { 191 } else if temp < 124 { 190 } else if temp < 127 { 189 } else
        if temp < 130 { 188 } else if temp < 133 { 187 } else if temp < 136 { 186 } else
        if temp < 139 { 185 } else if temp < 142 { 184 } else if temp < 145 { 183 } else
        if temp < 149 { 182 } else if temp < 153 { 181 } else if temp < 157 { 180 } else
        if temp < 161 { 179 } else if temp < 165 { 178 } else if temp < 169 { 177 } else
        if temp < 174 { 176 } else if temp < 179 { 175 } else if temp < 184 { 174 } else
        if temp < 190 { 173 } else if temp < 196 { 172 } else if temp < 202 { 171 } else
        if temp < 208 { 170 } else if temp < 215 { 169 } else if temp < 222 { 168 } else
        if temp < 229 { 167 } else if temp < 237 { 166 } else if temp < 245 { 165 } else
        if temp < 254 { 164 } else if temp < 263 { 163 } else if temp < 273 { 162 } else
        if temp < 283 { 161 } else if temp < 294 { 160 } else if temp < 305 { 159 } else
        if temp < 317 { 158 } else if temp < 329 { 157 } else if temp < 343 { 156 } else
        if temp < 357 { 155 } else if temp < 371 { 154 } else if temp < 387 { 153 } else
        if temp < 403 { 152 } else if temp < 421 { 151 } else if temp < 439 { 150 } else
        if temp < 459 { 149 } else if temp < 480 { 148 } else if temp < 502 { 147 } else
        if temp < 525 { 146 } else if temp < 550 { 145 } else if temp < 576 { 144 } else
        if temp < 604 { 143 } else if temp < 633 { 142 } else if temp < 664 { 141 } else
        if temp < 698 { 140 } else if temp < 733 { 139 } else if temp < 771 { 138 } else
        if temp < 811 { 137 } else if temp < 853 { 136 } else if temp < 899 { 135 } else
        if temp < 947 { 134 } else if temp < 998 { 133 } else if temp < 1053 { 132 } else
        if temp < 1112 { 131 } else if temp < 1174 { 130 } else if temp < 1241 { 129 } else
        if temp < 1312 { 128 } else if temp < 1389 { 127 } else if temp < 1470 { 126 } else
        if temp < 1557 { 125 } else if temp < 1651 { 124 } else if temp < 1751 { 123 } else
        if temp < 1858 { 122 } else if temp < 1973 { 121 } else if temp < 2097 { 120 } else
        if temp < 2229 { 119 } else if temp < 2372 { 118 } else if temp < 2525 { 117 } else
        if temp < 2690 { 116 } else if temp < 2867 { 115 } else if temp < 3058 { 114 } else
        if temp < 3264 { 113 } else if temp < 3486 { 112 } else if temp < 3726 { 111 } else
        if temp < 3985 { 110 } else if temp < 4264 { 109 } else if temp < 4567 { 108 } else
        if temp < 4895 { 107 } else if temp < 5249 { 106 } else if temp < 5634 { 105 } else
        if temp < 6051 { 104 } else if temp < 6504 { 103 } else if temp < 6996 { 102 } else
        if temp < 7531 { 101 } else if temp < 8114 { 100 } else if temp < 8748 { 99 } else
        if temp < 9440 { 98 } else if temp < 10195 { 97 } else if temp < 11019 { 96 } else
        if temp < 11920 { 95 } else if temp < 12906 { 94 } else if temp < 13986 { 93 } else
        if temp < 15170 { 92 } else if temp < 16469 { 91 } else if temp < 17897 { 90 } else
        if temp < 19467 { 89 } else if temp < 21195 { 88 } else if temp < 23100 { 87 } else
        if temp < 25201 { 86 } else if temp < 27523 { 85 } else if temp < 30090 { 84 } else
        if temp < 32933 { 83 } else if temp < 36084 { 82 } else if temp < 39583 { 81 } else
        if temp < 43471 { 80 } else if temp < 47799 { 79 } else if temp < 52622 { 78 } else
        if temp < 58005 { 77 } else if temp < 64021 { 76 } else if temp < 70755 { 75 } else
        if temp < 78303 { 74 } else if temp < 86778 { 73 } else if temp < 96308 { 72 } else
        if temp < 107043 { 71 } else if temp < 119154 { 70 } else if temp < 132843 { 69 } else
        if temp < 148342 { 68 } else if temp < 165924 { 67 } else if temp < 185905 { 66 } else
        if temp < 208659 { 65 } else if temp < 234621 { 64 } else if temp < 264306 { 63 } else
        if temp < 298321 { 62 } else if temp < 337383 { 61 } else if temp < 382344 { 60 } else
        if temp < 434218 { 59 } else if temp < 494213 { 58 } else if temp < 563779 { 57 } else
        if temp < 644651 { 56 } else if temp < 738925 { 55 } else if temp < 849130 { 54 } else
        if temp < 978336 { 53 } else if temp < 1130279 { 52 } else if temp < 1309523 { 51 } else
        if temp < 1521666 { 50 } else if temp < 1773606 { 49 } else if temp < 2073870 { 48 } else
        if temp < 2433052 { 47 } else if temp < 2864374 { 46 } else if temp < 3384415 { 45 } else
        if temp < 4014066 { 44 } else if temp < 4779792 { 43 } else if temp < 5715303 { 42 } else
        if temp < 6863778 { 41 } else if temp < 8280864 { 40 } else if temp < 10038722 { 39 } else
        if temp < 12231555 { 38 } else if temp < 14983190 { 37 } else if temp < 18457595 { 36 } else
        if temp < 22873579 { 35 } else if temp < 28525517 { 34 } else if temp < 35812898 { 33 } else
        if temp < 45282836 { 32 } else if temp < 57691958 { 31 } else if temp < 74097519 { 30 } else
        if temp < 95993246 { 29 } else if temp < 125514574 { 28 } else if temp < 165753120 { 27 } else
        if temp < 221245940 { 26 } else if temp < 298749217 { 25 } else if temp < 408483423 { 24 } else
        if temp < 566175687 { 23 } else if temp < 796479444 { 22 } else
        if temp < 1138829726 { 21 } else if temp < 1657717002 { 20 } else
        if temp < 2461203475 { 19 } else if temp < 3735294292 { 18 } else { 17 }
}

fn green_low_curve(temp: u32) -> (r: u8)
    ensures
        r == spec_green_low_curve(temp),
{
    if temp < 6 { 0 } else if temp < 7 { 17 } else if temp < 8 { 32 } else if temp < 9 { 46 } else
        if temp < 10 { 57 } else if temp < 11 { 68 } else if temp < 12 { 77 } else
        if temp < 13 { 86 } else if temp < 14 { 94 } else if temp < 15 { 101 } else
        if temp < 16 { 108 } else if temp < 17 { 115 } else if temp < 18 { 121 } else
        if temp < 19 { 126 } else if temp < 20 { 132 } else if temp < 21 { 137 } else
        if temp < 22 { 142 } else if temp < 23 { 146 } else if temp < 24 { 151 } else
        if temp < 25 { 155 } else if temp < 26 { 159 } else if temp < 27 { 163 } else
        if temp < 28 { 167 } else if temp < 29 { 170 } else if temp < 30 { 174 } else
        if temp < 31 { 177 } else if temp < 32 { 180 } else if temp < 33 { 184 } else
        if temp < 34 { 187 } else if temp < 35 { 190 } else if temp < 36 { 193 } else
        if temp < 37 { 195 } else if temp < 38 { 198 } else if temp < 39 { 201 } else
        if temp < 40 { 203 } else if temp < 41 { 206 } else if temp < 42 { 208 } else
        if temp < 43 { 211 } else if temp < 44 { 213 } else if temp < 45 { 215 } else
        if temp < 46 { 218 } else if temp < 47 { 220 } else if temp < 48 { 222 } else
        if temp < 49 { 224 } else if temp < 50 { 226 } else if temp < 51 { 228 } else
        if temp < 52 { 230 } else if temp < 53 { 232 } else if temp < 54 { 234 } else
        if temp < 55 { 236 } else if temp < 56 { 237 } else if temp < 57 { 239 } else
        if temp < 58 { 241 } else if temp < 59 { 243 } else if temp < 60 { 244 } else
        if temp < 61 { 246 } else if temp < 62 { 248 } else if temp < 63 { 249 } else
        if temp < 64 { 251 } else if temp < 65 { 253 } else if temp < 66 { 254 } else { 255 }
}

fn green_high_curve(temp: u32) -> (r: u8)
    ensures
        r == spec_green_high_curve(temp),
{
    if temp < 68 { 139 } else if temp < 69 { 138 } else if temp < 70 { 136 } else
        if temp < 71 { 135 } else if temp < 73 { 134 } else if temp < 74 { 133 } else
        if temp < 75 { 132 } else if temp < 77 { 131 } else if temp < 79 { 130 } else
        if temp < 80 { 129 } else if temp < 83 { 128 } else if temp < 85 { 127 } else
        if temp < 88 { 126 } else if temp < 91 { 125 } else if temp < 94 { 124 } else
        if temp < 98 { 123 } else if temp < 102 { 122 } else if temp < 107 { 121 } else
        if temp < 113 { 120 } else if temp < 119 { 119 } else if temp < 126 { 118 } else
        if temp < 134 { 117 } else if temp < 143 { 116 } else if temp < 153 { 115 } else
        if temp < 164 { 114 } else if temp < 177 { 113 } else if temp < 191 { 112 } else
        if temp < 208 { 111 } else if temp < 227 { 110 } else if temp < 248 { 109 } else
        if temp < 273 { 108 } else if temp < 301 { 107 } else if temp < 333 { 106 } else
        if temp < 370 { 105 } else if temp < 411 { 104 } else if temp < 460 { 103 } else
        if temp < 515 { 102 } else if temp < 579 { 101 } else if temp < 652 { 100 } else
        if temp < 737 { 99 } else if temp < 835 { 98 } else if temp < 948 { 97 } else
        if temp < 1079 { 96 } else if temp < 1231 { 95 } else if temp < 1408 { 94 } else
        if temp < 1615 { 93 } else if temp < 1855 { 92 } else if temp < 2136 { 91 } else
        if temp < 2466 { 90 } else if temp < 2851 { 89 } else if temp < 3305 { 88 } else
        if temp < 3838 { 87 } else if temp < 4467 { 86 } else if temp < 5210 { 85 } else
        if temp < 6089 { 84 } else if temp < 7132 { 83 } else if temp < 8371 { 82 } else
        if temp < 9847 { 81 } else if temp < 11609 { 80 } else if temp < 13717 { 79 } else
        if temp < 16244 { 78 } else if temp < 19280 { 77 } else if temp < 22939 { 76 } else
        if temp < 27357 { 75 } else if temp < 32706 { 74 } else if temp < 39200 { 73 } else
        if temp < 47103 { 72 } else if temp < 56749 { 71 } else if temp < 68554 { 70 } else
        if temp < 83046 { 69 } else if temp < 100888 { 68 } else if temp < 122923 { 67 } else
        if temp < 150222 { 66 } else if temp < 184154 { 65 } else if temp < 226473 { 64 } else
        if temp < 279438 { 63 } else if temp < 345962 { 62 } else if temp < 429830 { 61 } else
        if temp < 535967 { 60 } else if temp < 670822 { 59 } else if temp < 842867 { 58 } else
        if temp < 1063290 { 57 } else if temp < 1346939 { 56 } else if temp < 1713611 { 55 } else
        if temp < 2189849 { 54 } else if temp < 2811423 { 53 } else if temp < 3626819 { 52 } else
        if temp < 4702131 { 51 } else if temp < 6128012 { 50 } else if temp < 8029570 { 49 } else
        if temp < 10580610 { 48 } else if temp < 14024224 { 47 } else if temp < 18702838 { 46 } else
        if temp < 25102382 { 45 } else if temp < 33917780 { 44 } else if temp < 46150889 { 43 } else
        if temp < 63258321 { 42 } else if temp < 87376686 { 41 } else if temp < 121669245 { 40 } else
        if temp < 170865068 { 39 } else if temp < 242106847 { 38 } else if temp < 346299613 { 37 } else
        if temp < 500282618 { 36 } else if temp < 730371991 { 35 } else
        if temp < 1078218294 { 34 } else if temp < 1610631534 { 33 } else
        if temp < 2436313225 { 32 } else if temp < 3734814229 { 31 } else { 30 }
}

fn blue_curve(temp: u32) -> (r: u8)
    ensures
        r == spec_blue_curve(temp),
{
    if temp < 21 { 14 } else if temp < 22 { 27 } else if temp < 23 { 39 } else
        if temp < 24 { 50 } else if temp < 25 { 61 } else if temp < 26 { 70 } else
        if temp < 27 { 79 } else if temp < 28 { 87 } else if temp < 29 { 95 } else
        if temp < 30 { 103 } else if temp < 31 { 110 } else if temp < 32 { 117 } else
        if temp < 33 { 123 } else if temp < 34 { 129 } else if temp < 35 { 135 } else
        if temp < 36 { 141 } else if temp < 37 { 146 } else if temp < 38 { 151 } else
        if temp < 39 { 157 } else if temp < 40 { 161 } else if temp < 41 { 166 } else
        if temp < 42 { 171 } else if temp < 43 { 175 } else if temp < 44 { 179 } else
        if temp < 45 { 183 } else if temp < 46 { 187 } else if temp < 47 { 191 } else
        if temp < 48 { 195 } else if temp < 49 { 199 } else if temp < 50 { 202 } else
        if temp < 51 { 206 } else if temp < 52 { 209 } else if temp < 53 { 213 } else
        if temp < 54 { 216 } else if temp < 55 { 219 } else if temp < 56 { 222 } else
        if temp < 57 { 225 } else if temp < 58 { 228 } else if temp < 59 { 231 } else
        if temp < 60 { 234 } else if temp < 61 { 237 } else if temp < 62 { 240 } else
        if temp < 63 { 242 } else if temp < 64 { 245 } else if temp < 65 { 248 } else { 250 }
}

/// Convert a color temperature to the approximate color a temperature-only
/// light would show. At 66 both the red and the blue channel saturate.
pub fn temp_to_color(temp: u32) -> (c: Color)
    ensures
        c == spec_temp_to_color(temp),
        temp <= 66 ==> c.red == 255,
        temp >= 66 ==> c.blue == 255,
        temp <= 19 ==> c.blue == 0,
{
    let red: u8 = if temp <= 66 { 255 } else { red_curve(temp) };
    let green: u8 = if temp <= 66 { green_low_curve(temp) } else { green_high_curve(temp) };
    let blue: u8 = if temp >= 66 {
        255
    } else if temp <= 19 {
        0
    } else {
        blue_curve(temp)
    };
    Color { red, green, blue }
}

} // verus!
